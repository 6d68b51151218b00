//! The template engine: recovers the semantic kind of a generated site
//! configuration file from its embedded marker line, and renders a new file
//! of a given kind by substituting placeholder tokens in a built-in
//! template.
//!
//! Every generated file carries a single marker line of the form
//! `# <engine> stub: [secure.]<kind>.conf` with kind `proxy` or `isolated`;
//! any other marker, or no marker at all, means a plain site. A proxy file
//! also carries a `proxy_pass <target>;` directive, an isolated file a
//! `# ISOLATED_PHP_VERSION=<version>` comment line.

use vstd::prelude::*;
use vstd::string::StrSliceExecFns;
use vstd::string::StringExecFns;

use crate::error::ValetError;
use crate::strutil::{
    occurs_at, contains_seq, first_occ, lemma_first_occ_is, lemma_first_occ_none, lemma_occ_skip,
    find_from, matches_at, no_upper, all_ph, lemma_no_upper_absent, lemma_no_upper_concat,
    lemma_absent_tok, lemma_long_absent, lemma_neq_absent, lemma_concat_absent,
    lemma_replace_split, lemma_replace_absent, replace_all, concat_str, concat_parts,
    lemma_parts_absent, lemma_parts_no_upper, lemma_replace_parts, lemma_concat_parts_7,
    lemma_concat_parts_13, lemma_concat_parts_19, is_ph_char, lacks_char, has_bigram,
    lemma_lacks_absent, lemma_lacks_concat, lemma_concat_absent_bigram, lemma_occ_prefix,
    lemma_occ_within_prefix, lemma_first_occ_concat,
};

verus! {

/// Mathematical form of a recovered kind.
pub enum KindSpec {
    Plain,
    Proxy(Seq<char>),
    Isolated(Seq<char>),
}

/// The semantic kind of a generated site configuration.
#[derive(Debug, Clone)]
pub enum SiteKind {
    /// A site served directly from its directory.
    Plain,
    /// A site whose requests are forwarded to an upstream target.
    Proxy { target: String },
    /// A site pinned to a PHP runtime version other than the default.
    Isolated { php_version: String },
}

impl View for SiteKind {
    type V = KindSpec;

    open spec fn view(&self) -> KindSpec {
        match self {
            SiteKind::Plain => KindSpec::Plain,
            SiteKind::Proxy { target } => KindSpec::Proxy(target@),
            SiteKind::Isolated { php_version } => KindSpec::Isolated(php_version@),
        }
    }
}

/// The substitution values shared by the templates. Every value is a
/// single-line text free of upper-case letters, which are reserved for
/// placeholder tokens.
pub struct RenderParams {
    pub site: String,
    pub http_port: String,
    pub https_port: String,
    pub home_path: String,
    pub server_path: String,
    pub static_prefix: String,
    pub socket_path: String,
}

/// Mathematical form of the substitution values.
pub struct ParamsSpec {
    pub site: Seq<char>,
    pub http_port: Seq<char>,
    pub https_port: Seq<char>,
    pub home_path: Seq<char>,
    pub server_path: Seq<char>,
    pub static_prefix: Seq<char>,
    pub socket_path: Seq<char>,
}

impl View for RenderParams {
    type V = ParamsSpec;

    open spec fn view(&self) -> ParamsSpec {
        ParamsSpec {
            site: self.site@,
            http_port: self.http_port@,
            https_port: self.https_port@,
            home_path: self.home_path@,
            server_path: self.server_path@,
            static_prefix: self.static_prefix@,
            socket_path: self.socket_path@,
        }
    }
}

/// A substitution value is nonempty and holds no upper-case letters:
/// those are reserved for the placeholder tokens of the templates.
pub open spec fn value_ok(s: Seq<char>) -> bool {
    no_upper(s) && s.len() > 0
}

pub open spec fn params_ok(p: ParamsSpec) -> bool {
    &&& value_ok(p.site)
    &&& value_ok(p.http_port)
    &&& value_ok(p.https_port)
    &&& value_ok(p.home_path)
    &&& value_ok(p.server_path)
    &&& value_ok(p.static_prefix)
    &&& value_ok(p.socket_path)
}

/// The kind-specific parameter is usable by the renderer. A proxy target
/// is carried through verbatim: it is the last substitution of its
/// templates, so it needs no restriction. An isolated version is
/// substituted first and must be a valid substitution value.
pub open spec fn kind_ok(k: KindSpec) -> bool {
    match k {
        KindSpec::Plain => true,
        KindSpec::Proxy(t) => true,
        KindSpec::Isolated(v) => value_ok(v),
    }
}

/// Both kind-specific parameters are valid substitution values; the laws
/// about rendered text are stated under this stronger condition.
pub open spec fn kind_values_ok(k: KindSpec) -> bool {
    match k {
        KindSpec::Plain => true,
        KindSpec::Proxy(t) => value_ok(t),
        KindSpec::Isolated(v) => value_ok(v),
    }
}

/// Certificate file path for a site, under the home directory.
pub open spec fn spec_cert_path(home: Seq<char>, site: Seq<char>) -> Seq<char> {
    home + "/certificates/"@ + site + ".crt"@
}

/// Private-key file path for a site, under the home directory.
pub open spec fn spec_key_path(home: Seq<char>, site: Seq<char>) -> Seq<char> {
    home + "/certificates/"@ + site + ".key"@
}

/// The exact text rendered for an unsecured proxy site.
pub open spec fn spec_rendered_proxy_plain(target: Seq<char>, p: ParamsSpec) -> Seq<char> {
    concat_parts(
        seq![
            "# valet stub: proxy.conf\nserver {\n    listen "@,
            p.http_port,
            ";\n    server_name "@,
            p.site,
            ";\n    location / {\n        proxy_pass "@,
            target,
            ";\n    }\n}\n"@,
        ],
    )
}

/// The exact text rendered for a secured proxy site.
pub open spec fn spec_rendered_proxy_secure(target: Seq<char>, p: ParamsSpec) -> Seq<char> {
    concat_parts(
        seq![
            "# valet stub: secure.proxy.conf\nserver {\n    listen "@,
            p.http_port,
            ";\n    return 301 https://$host$request_uri;\n}\nserver {\n    listen "@,
            p.https_port,
            " ssl;\n    server_name "@,
            p.site,
            ";\n    ssl_certificate "@,
            spec_cert_path(p.home_path, p.site),
            ";\n    ssl_certificate_key "@,
            spec_key_path(p.home_path, p.site),
            ";\n    location / {\n        proxy_pass "@,
            target,
            ";\n    }\n}\n"@,
        ],
    )
}

/// The exact text rendered for an unsecured plain site.
pub open spec fn spec_rendered_plain(p: ParamsSpec) -> Seq<char> {
    concat_parts(
        seq![
            "# valet stub: valet.conf\nserver {\n    listen "@,
            p.http_port,
            ";\n    server_name "@,
            p.site,
            ";\n    root "@,
            p.home_path,
            "/sites;\n    index "@,
            p.server_path,
            ";\n    location "@,
            p.static_prefix,
            "/ {\n        internal;\n    }\n    fastcgi_pass unix:"@,
            p.socket_path,
            ";\n}\n"@,
        ],
    )
}

/// The exact text rendered for a secured plain site.
pub open spec fn spec_rendered_plain_secure(p: ParamsSpec) -> Seq<char> {
    concat_parts(
        seq![
            "# valet stub: secure.valet.conf\nserver {\n    listen "@,
            p.http_port,
            ";\n    return 301 https://$host$request_uri;\n}\nserver {\n    listen "@,
            p.https_port,
            " ssl;\n    server_name "@,
            p.site,
            ";\n    ssl_certificate "@,
            spec_cert_path(p.home_path, p.site),
            ";\n    ssl_certificate_key "@,
            spec_key_path(p.home_path, p.site),
            ";\n    root "@,
            p.home_path,
            "/sites;\n    index "@,
            p.server_path,
            ";\n    location "@,
            p.static_prefix,
            "/ {\n        internal;\n    }\n    fastcgi_pass unix:"@,
            p.socket_path,
            ";\n}\n"@,
        ],
    )
}

/// The exact text rendered for an unsecured isolated site.
pub open spec fn spec_rendered_isolated(version: Seq<char>, p: ParamsSpec) -> Seq<char> {
    concat_parts(
        seq![
            "# valet stub: isolated.conf\n# ISOLATED_PHP_VERSION="@,
            version,
            "\nserver {\n    listen "@,
            p.http_port,
            ";\n    server_name "@,
            p.site,
            ";\n    root "@,
            p.home_path,
            "/sites;\n    index "@,
            p.server_path,
            ";\n    fastcgi_pass unix:"@,
            p.socket_path,
            ";\n}\n"@,
        ],
    )
}

/// The exact text rendered for a secured isolated site.
pub open spec fn spec_rendered_isolated_secure(version: Seq<char>, p: ParamsSpec) -> Seq<char> {
    concat_parts(
        seq![
            "# valet stub: secure.isolated.conf\n# ISOLATED_PHP_VERSION="@,
            version,
            "\nserver {\n    listen "@,
            p.http_port,
            ";\n    return 301 https://$host$request_uri;\n}\nserver {\n    listen "@,
            p.https_port,
            " ssl;\n    server_name "@,
            p.site,
            ";\n    ssl_certificate "@,
            spec_cert_path(p.home_path, p.site),
            ";\n    ssl_certificate_key "@,
            spec_key_path(p.home_path, p.site),
            ";\n    root "@,
            p.home_path,
            "/sites;\n    index "@,
            p.server_path,
            ";\n    fastcgi_pass unix:"@,
            p.socket_path,
            ";\n}\n"@,
        ],
    )
}

/// The exact text rendered for each kind and security flag.
pub open spec fn spec_rendered(k: KindSpec, secure: bool, p: ParamsSpec) -> Seq<char> {
    match k {
        KindSpec::Plain => if secure {
            spec_rendered_plain_secure(p)
        } else {
            spec_rendered_plain(p)
        },
        KindSpec::Proxy(t) => if secure {
            spec_rendered_proxy_secure(t, p)
        } else {
            spec_rendered_proxy_plain(t, p)
        },
        KindSpec::Isolated(v) => if secure {
            spec_rendered_isolated_secure(v, p)
        } else {
            spec_rendered_isolated(v, p)
        },
    }
}

/// The upstream target a proxy file names: the text between the first
/// `proxy_pass ` directive and the `;` that closes it, or None when the
/// directive or its terminator is missing.
pub open spec fn spec_proxy_target(s: Seq<char>) -> Option<Seq<char>> {
    let pp = first_occ(s, "proxy_pass "@);
    if pp == -1 {
        Option::None
    } else {
        let st = pp + 11;
        let semi = first_occ(s.skip(st), ";"@);
        if semi == -1 {
            Option::None
        } else {
            Option::Some(s.subrange(st, st + semi))
        }
    }
}

/// The pinned version an isolated file names: the rest of the line after
/// the first `# ISOLATED_PHP_VERSION=` marker, or empty when the marker
/// line is missing.
pub open spec fn spec_isolated_version(s: Seq<char>) -> Seq<char> {
    let io = first_occ(s, "# ISOLATED_PHP_VERSION="@);
    if io == -1 {
        Seq::<char>::empty()
    } else {
        let st = io + 23;
        let nl = first_occ(s.skip(st), "\n"@);
        if nl == -1 {
            s.subrange(st, s.len() as int)
        } else {
            s.subrange(st, st + nl)
        }
    }
}

/// The kind recovered from a generated file, or None when the marker names
/// a proxy but the proxy target cannot be recovered.
pub open spec fn spec_recover(s: Seq<char>) -> Option<KindSpec> {
    let m = first_occ(s, " stub: "@);
    if m == -1 {
        Option::Some(KindSpec::Plain)
    } else {
        let q = m + 7;
        let q2 = if occurs_at(s, "secure."@, q) {
            q + 7
        } else {
            q
        };
        if occurs_at(s, "proxy.conf"@, q2) {
            match spec_proxy_target(s) {
                Option::Some(t) => Option::Some(KindSpec::Proxy(t)),
                Option::None => Option::None,
            }
        } else if occurs_at(s, "isolated.conf"@, q2) {
            Option::Some(KindSpec::Isolated(spec_isolated_version(s)))
        } else {
            Option::Some(KindSpec::Plain)
        }
    }
}

/// Recovers the semantic kind of a generated file from its marker line.
///
/// A missing marker, or a marker whose kind token is neither `proxy` nor
/// `isolated`, recovers as plain. A proxy marker without a recoverable
/// `proxy_pass` directive is a parse failure. An isolated marker without a
/// version line recovers an empty version, which callers must treat as
/// "use the default version".
pub fn recover_kind(contents: &str) -> (r: Result<SiteKind, ValetError>)
    ensures
        match r {
            Ok(k) => spec_recover(contents@) == Option::Some(k@),
            Err(e) => spec_recover(contents@) is None && e is ParseFailure,
        },
{
    let s_len = contents.unicode_len();
    let m = match find_from(contents, 0, " stub: ") {
        Option::None => {
            proof {
                lemma_first_occ_none(contents@, " stub: "@);
            }
            return Ok(SiteKind::Plain);
        },
        Option::Some(i) => i,
    };
    proof {
        lemma_first_occ_is(contents@, " stub: "@, m as int);
        reveal_strlit(" stub: ");
    }
    let q = m + 7;
    let q2 = if matches_at(contents, q, "secure.") {
        proof {
            reveal_strlit("secure.");
        }
        q + 7
    } else {
        q
    };
    if matches_at(contents, q2, "proxy.conf") {
        recover_proxy(contents)
    } else if matches_at(contents, q2, "isolated.conf") {
        Ok(SiteKind::Isolated { php_version: isolated_version(contents) })
    } else {
        Ok(SiteKind::Plain)
    }
}

/// Extracts the upstream target of a proxy file.
fn recover_proxy(contents: &str) -> (r: Result<SiteKind, ValetError>)
    ensures
        match r {
            Ok(k) => match k@ {
                KindSpec::Proxy(t) => spec_proxy_target(contents@) == Option::Some(t),
                _ => false,
            },
            Err(e) => spec_proxy_target(contents@) is None && e is ParseFailure,
        },
{
    let ghost s = contents@;
    let s_len = contents.unicode_len();
    let pp = match find_from(contents, 0, "proxy_pass ") {
        Option::None => {
            proof {
                lemma_first_occ_none(s, "proxy_pass "@);
            }
            return Err(
                ValetError::ParseFailure("proxy marker without a proxy_pass directive".to_owned()),
            );
        },
        Option::Some(i) => i,
    };
    proof {
        lemma_first_occ_is(s, "proxy_pass "@, pp as int);
        reveal_strlit("proxy_pass ");
    }
    let st = pp + 11;
    match find_from(contents, st, ";") {
        Option::None => {
            proof {
                assert forall|j: int| !occurs_at(s.skip(st as int), ";"@, j) by {
                    if 0 <= j {
                        lemma_occ_skip(s, ";"@, st as int, j);
                    }
                }
                lemma_first_occ_none(s.skip(st as int), ";"@);
            }
            Err(ValetError::ParseFailure("proxy_pass directive without a terminator".to_owned()))
        },
        Option::Some(semi) => {
            proof {
                lemma_occ_skip(s, ";"@, st as int, semi - st);
                assert forall|j: int| 0 <= j < semi - st implies !occurs_at(
                    s.skip(st as int),
                    ";"@,
                    j,
                ) by {
                    lemma_occ_skip(s, ";"@, st as int, j);
                }
                lemma_first_occ_is(s.skip(st as int), ";"@, semi - st);
            }
            let target = contents.substring_char(st, semi).to_owned();
            Ok(SiteKind::Proxy { target })
        },
    }
}

/// Extracts the pinned version of an isolated file; empty when the version
/// line is missing.
fn isolated_version(contents: &str) -> (r: String)
    ensures
        r@ == spec_isolated_version(contents@),
{
    let ghost s = contents@;
    let s_len = contents.unicode_len();
    let io = match find_from(contents, 0, "# ISOLATED_PHP_VERSION=") {
        Option::None => {
            proof {
                lemma_first_occ_none(s, "# ISOLATED_PHP_VERSION="@);
            }
            return String::new();
        },
        Option::Some(i) => i,
    };
    proof {
        lemma_first_occ_is(s, "# ISOLATED_PHP_VERSION="@, io as int);
        reveal_strlit("# ISOLATED_PHP_VERSION=");
    }
    let st = io + 23;
    match find_from(contents, st, "\n") {
        Option::None => {
            proof {
                assert forall|j: int| !occurs_at(s.skip(st as int), "\n"@, j) by {
                    if 0 <= j {
                        lemma_occ_skip(s, "\n"@, st as int, j);
                    }
                }
                lemma_first_occ_none(s.skip(st as int), "\n"@);
            }
            contents.substring_char(st, s_len).to_owned()
        },
        Option::Some(nl) => {
            proof {
                lemma_occ_skip(s, "\n"@, st as int, nl - st);
                assert forall|j: int| 0 <= j < nl - st implies !occurs_at(
                    s.skip(st as int),
                    "\n"@,
                    j,
                ) by {
                    lemma_occ_skip(s, "\n"@, st as int, j);
                }
                lemma_first_occ_is(s.skip(st as int), "\n"@, nl - st);
            }
            contents.substring_char(st, nl).to_owned()
        },
    }
}

/// Builds the certificate file path for a site.
fn cert_path(home: &str, site: &str) -> (r: String)
    ensures
        r@ == spec_cert_path(home@, site@),
{
    let a = concat_str(home, "/certificates/");
    let b = concat_str(a.as_str(), site);
    concat_str(b.as_str(), ".crt")
}

/// Builds the private-key file path for a site.
fn key_path(home: &str, site: &str) -> (r: String)
    ensures
        r@ == spec_key_path(home@, site@),
{
    let a = concat_str(home, "/certificates/");
    let b = concat_str(a.as_str(), site);
    concat_str(b.as_str(), ".key")
}

/// Renders the template for the given kind and security flag.
///
/// The substitution is a literal replacement of each fixed placeholder
/// token by its value; the result is pinned down exactly, so no
/// placeholder survives in any rendered output.
pub fn render(kind: &SiteKind, secure: bool, params: &RenderParams) -> (r: String)
    requires
        params_ok(params@),
        kind_ok(kind@),
    ensures
        r@ == spec_rendered(kind@, secure, params@),
{
    match kind {
        SiteKind::Plain => if secure {
            render_plain_secure(params)
        } else {
            render_plain(params)
        },
        SiteKind::Proxy { target } => if secure {
            render_proxy_secure(target.as_str(), params)
        } else {
            render_proxy_plain(target.as_str(), params)
        },
        SiteKind::Isolated { php_version } => if secure {
            render_isolated_secure(php_version.as_str(), params)
        } else {
            render_isolated(php_version.as_str(), params)
        },
    }
}

/// The built-in template for an unsecured proxy site.
fn template_proxy_plain() -> (t: String)
    ensures
        t@ == concat_parts(seq!["# valet stub: proxy.conf\nserver {\n    listen "@, "VALET_HTTP_PORT"@, ";\n    server_name "@, "VALET_SITE"@, ";\n    location / {\n        proxy_pass "@, "VALET_PROXY_HOST"@, ";\n    }\n}\n"@]),
{
    let mut t = "# valet stub: proxy.conf\nserver {\n    listen ".to_owned();
    t.append("VALET_HTTP_PORT");
    t.append(";\n    server_name ");
    t.append("VALET_SITE");
    t.append(";\n    location / {\n        proxy_pass ");
    t.append("VALET_PROXY_HOST");
    t.append(";\n    }\n}\n");
    proof {
        lemma_concat_parts_7(
            "# valet stub: proxy.conf\nserver {\n    listen "@,
            "VALET_HTTP_PORT"@,
            ";\n    server_name "@,
            "VALET_SITE"@,
            ";\n    location / {\n        proxy_pass "@,
            "VALET_PROXY_HOST"@,
            ";\n    }\n}\n"@,
        );
    }
    t
}

/// Renders the template for an unsecured proxy site by substituting its placeholders.
fn render_proxy_plain(target: &str, params: &RenderParams) -> (r: String)
    requires
        params_ok(params@),
    ensures
        r@ == spec_rendered_proxy_plain(target@, params@),
{
    let t0 = template_proxy_plain();
    let ghost l0 = "# valet stub: proxy.conf\nserver {\n    listen "@;
    let ghost l1 = ";\n    server_name "@;
    let ghost l2 = ";\n    location / {\n        proxy_pass "@;
    let ghost l3 = ";\n    }\n}\n"@;
    let ghost th = "VALET_HTTP_PORT"@;
    let ghost tpx = "VALET_PROXY_HOST"@;
    let ghost tst = "VALET_SITE"@;
    let ghost v_http = params@.http_port;
    let ghost v_site = params@.site;
    let ghost v_tgt = target@;
    proof {
        reveal_strlit("# valet stub: proxy.conf\nserver {\n    listen ");
        reveal_strlit(";\n    server_name ");
        reveal_strlit(";\n    location / {\n        proxy_pass ");
        reveal_strlit(";\n    }\n}\n");
        reveal_strlit("VALET_HTTP_PORT");
        reveal_strlit("VALET_PROXY_HOST");
        reveal_strlit("VALET_SITE");
    }
    let ghost lst0 = seq![l0, th, l1, tst, l2, tpx, l3];
    proof {
        assert(t0@ == concat_parts(lst0));
    }
    let s1 = replace_all(t0.as_str(), "VALET_HTTP_PORT", params.http_port.as_str());
    proof {
        assert(all_ph(th));
        lemma_no_upper_absent(l0, th);
        lemma_no_upper_absent(l1, th);
        lemma_no_upper_absent(l2, th);
        lemma_no_upper_absent(l3, th);
        lemma_long_absent(tst, th);
        lemma_absent_tok(tpx, th, 6);
        let ghost pa = seq![l0];
        let ghost pb = seq![l1, tst, l2, tpx, l3];
        lemma_replace_parts(pa, th, pb, v_http);
        assert(pa + seq![th] + pb =~= lst0);
        assert(pa + seq![v_http] + pb =~= seq![l0, v_http, l1, tst, l2, tpx, l3]);
    }
    let ghost lst1 = seq![l0, v_http, l1, tst, l2, tpx, l3];
    proof {
        assert(s1@ == concat_parts(lst1));
    }
    let s2 = replace_all(s1.as_str(), "VALET_SITE", params.site.as_str());
    proof {
        assert(all_ph(tst));
        lemma_no_upper_absent(l0, tst);
        lemma_no_upper_absent(l1, tst);
        lemma_no_upper_absent(l2, tst);
        lemma_no_upper_absent(l3, tst);
        lemma_no_upper_absent(v_http, tst);
        lemma_absent_tok(tpx, tst, 6);
        let ghost pa = seq![l0, v_http, l1];
        let ghost pb = seq![l2, tpx, l3];
        lemma_replace_parts(pa, tst, pb, v_site);
        assert(pa + seq![tst] + pb =~= lst1);
        assert(pa + seq![v_site] + pb =~= seq![l0, v_http, l1, v_site, l2, tpx, l3]);
    }
    let ghost lst2 = seq![l0, v_http, l1, v_site, l2, tpx, l3];
    proof {
        assert(s2@ == concat_parts(lst2));
    }
    let s3 = replace_all(s2.as_str(), "VALET_PROXY_HOST", target);
    proof {
        assert(all_ph(tpx));
        lemma_no_upper_absent(l0, tpx);
        lemma_no_upper_absent(l1, tpx);
        lemma_no_upper_absent(l2, tpx);
        lemma_no_upper_absent(l3, tpx);
        lemma_no_upper_absent(v_http, tpx);
        lemma_no_upper_absent(v_site, tpx);
        let ghost pa = seq![l0, v_http, l1, v_site, l2];
        let ghost pb = seq![l3];
        lemma_replace_parts(pa, tpx, pb, v_tgt);
        assert(pa + seq![tpx] + pb =~= lst2);
        assert(pa + seq![v_tgt] + pb =~= seq![l0, v_http, l1, v_site, l2, v_tgt, l3]);
    }
    let ghost lst3 = seq![l0, v_http, l1, v_site, l2, v_tgt, l3];
    proof {
        assert(s3@ == concat_parts(lst3));
    }
    proof {
        assert(lst3 =~= seq![l0, v_http, l1, v_site, l2, v_tgt, l3]);
        assert(s3@ == spec_rendered_proxy_plain(target@, params@));
    }
    s3
}

/// The built-in template for a secured proxy site.
fn template_proxy_secure() -> (t: String)
    ensures
        t@ == concat_parts(seq!["# valet stub: secure.proxy.conf\nserver {\n    listen "@, "VALET_HTTP_PORT"@, ";\n    return 301 https://$host$request_uri;\n}\nserver {\n    listen "@, "VALET_HTTPS_PORT"@, " ssl;\n    server_name "@, "VALET_SITE"@, ";\n    ssl_certificate "@, "VALET_CERT"@, ";\n    ssl_certificate_key "@, "VALET_KEY"@, ";\n    location / {\n        proxy_pass "@, "VALET_PROXY_HOST"@, ";\n    }\n}\n"@]),
{
    let mut t = "# valet stub: secure.proxy.conf\nserver {\n    listen ".to_owned();
    t.append("VALET_HTTP_PORT");
    t.append(";\n    return 301 https://$host$request_uri;\n}\nserver {\n    listen ");
    t.append("VALET_HTTPS_PORT");
    t.append(" ssl;\n    server_name ");
    t.append("VALET_SITE");
    t.append(";\n    ssl_certificate ");
    t.append("VALET_CERT");
    t.append(";\n    ssl_certificate_key ");
    t.append("VALET_KEY");
    t.append(";\n    location / {\n        proxy_pass ");
    t.append("VALET_PROXY_HOST");
    t.append(";\n    }\n}\n");
    proof {
        lemma_concat_parts_13(
            "# valet stub: secure.proxy.conf\nserver {\n    listen "@,
            "VALET_HTTP_PORT"@,
            ";\n    return 301 https://$host$request_uri;\n}\nserver {\n    listen "@,
            "VALET_HTTPS_PORT"@,
            " ssl;\n    server_name "@,
            "VALET_SITE"@,
            ";\n    ssl_certificate "@,
            "VALET_CERT"@,
            ";\n    ssl_certificate_key "@,
            "VALET_KEY"@,
            ";\n    location / {\n        proxy_pass "@,
            "VALET_PROXY_HOST"@,
            ";\n    }\n}\n"@,
        );
    }
    t
}

/// Renders the template for a secured proxy site by substituting its placeholders.
fn render_proxy_secure(target: &str, params: &RenderParams) -> (r: String)
    requires
        params_ok(params@),
    ensures
        r@ == spec_rendered_proxy_secure(target@, params@),
{
    let t0 = template_proxy_secure();
    let cert = cert_path(params.home_path.as_str(), params.site.as_str());
    let key = key_path(params.home_path.as_str(), params.site.as_str());
    let ghost l0 = "# valet stub: secure.proxy.conf\nserver {\n    listen "@;
    let ghost l1 = ";\n    return 301 https://$host$request_uri;\n}\nserver {\n    listen "@;
    let ghost l2 = " ssl;\n    server_name "@;
    let ghost l3 = ";\n    ssl_certificate "@;
    let ghost l4 = ";\n    ssl_certificate_key "@;
    let ghost l5 = ";\n    location / {\n        proxy_pass "@;
    let ghost l6 = ";\n    }\n}\n"@;
    let ghost tct = "VALET_CERT"@;
    let ghost th = "VALET_HTTP_PORT"@;
    let ghost ths = "VALET_HTTPS_PORT"@;
    let ghost tky = "VALET_KEY"@;
    let ghost tpx = "VALET_PROXY_HOST"@;
    let ghost tst = "VALET_SITE"@;
    let ghost v_http = params@.http_port;
    let ghost v_https = params@.https_port;
    let ghost v_site = params@.site;
    let ghost v_cert = cert@;
    let ghost v_key = key@;
    let ghost v_tgt = target@;
    proof {
        reveal_strlit("# valet stub: secure.proxy.conf\nserver {\n    listen ");
        reveal_strlit(";\n    return 301 https://$host$request_uri;\n}\nserver {\n    listen ");
        reveal_strlit(" ssl;\n    server_name ");
        reveal_strlit(";\n    ssl_certificate ");
        reveal_strlit(";\n    ssl_certificate_key ");
        reveal_strlit(";\n    location / {\n        proxy_pass ");
        reveal_strlit(";\n    }\n}\n");
        reveal_strlit("VALET_CERT");
        reveal_strlit("VALET_HTTP_PORT");
        reveal_strlit("VALET_HTTPS_PORT");
        reveal_strlit("VALET_KEY");
        reveal_strlit("VALET_PROXY_HOST");
        reveal_strlit("VALET_SITE");
        reveal_strlit("/certificates/");
        reveal_strlit(".crt");
        reveal_strlit(".key");
        lemma_no_upper_concat(params@.home_path, "/certificates/"@);
        lemma_no_upper_concat(params@.home_path + "/certificates/"@, params@.site);
        lemma_no_upper_concat(params@.home_path + "/certificates/"@ + params@.site, ".crt"@);
        lemma_no_upper_concat(params@.home_path + "/certificates/"@ + params@.site, ".key"@);
        assert(no_upper(v_cert) && v_cert.len() > 0);
        assert(no_upper(v_key) && v_key.len() > 0);
    }
    let ghost lst0 = seq![l0, th, l1, ths, l2, tst, l3, tct, l4, tky, l5, tpx, l6];
    proof {
        assert(t0@ == concat_parts(lst0));
    }
    let s1 = replace_all(t0.as_str(), "VALET_HTTP_PORT", params.http_port.as_str());
    proof {
        assert(all_ph(th));
        lemma_no_upper_absent(l0, th);
        lemma_no_upper_absent(l1, th);
        lemma_no_upper_absent(l2, th);
        lemma_no_upper_absent(l3, th);
        lemma_no_upper_absent(l4, th);
        lemma_no_upper_absent(l5, th);
        lemma_no_upper_absent(l6, th);
        lemma_absent_tok(ths, th, 10);
        lemma_long_absent(tst, th);
        lemma_long_absent(tct, th);
        lemma_long_absent(tky, th);
        lemma_absent_tok(tpx, th, 6);
        let ghost pa = seq![l0];
        let ghost pb = seq![l1, ths, l2, tst, l3, tct, l4, tky, l5, tpx, l6];
        lemma_replace_parts(pa, th, pb, v_http);
        assert(pa + seq![th] + pb =~= lst0);
        assert(pa + seq![v_http] + pb =~= seq![l0, v_http, l1, ths, l2, tst, l3, tct, l4, tky, l5, tpx, l6]);
    }
    let ghost lst1 = seq![l0, v_http, l1, ths, l2, tst, l3, tct, l4, tky, l5, tpx, l6];
    proof {
        assert(s1@ == concat_parts(lst1));
    }
    let s2 = replace_all(s1.as_str(), "VALET_HTTPS_PORT", params.https_port.as_str());
    proof {
        assert(all_ph(ths));
        lemma_no_upper_absent(l0, ths);
        lemma_no_upper_absent(l1, ths);
        lemma_no_upper_absent(l2, ths);
        lemma_no_upper_absent(l3, ths);
        lemma_no_upper_absent(l4, ths);
        lemma_no_upper_absent(l5, ths);
        lemma_no_upper_absent(l6, ths);
        lemma_no_upper_absent(v_http, ths);
        lemma_long_absent(tst, ths);
        lemma_long_absent(tct, ths);
        lemma_long_absent(tky, ths);
        assert(tpx[6] != ths[6]);
        lemma_neq_absent(tpx, ths);
        let ghost pa = seq![l0, v_http, l1];
        let ghost pb = seq![l2, tst, l3, tct, l4, tky, l5, tpx, l6];
        lemma_replace_parts(pa, ths, pb, v_https);
        assert(pa + seq![ths] + pb =~= lst1);
        assert(pa + seq![v_https] + pb =~= seq![l0, v_http, l1, v_https, l2, tst, l3, tct, l4, tky, l5, tpx, l6]);
    }
    let ghost lst2 = seq![l0, v_http, l1, v_https, l2, tst, l3, tct, l4, tky, l5, tpx, l6];
    proof {
        assert(s2@ == concat_parts(lst2));
    }
    let s3 = replace_all(s2.as_str(), "VALET_SITE", params.site.as_str());
    proof {
        assert(all_ph(tst));
        lemma_no_upper_absent(l0, tst);
        lemma_no_upper_absent(l1, tst);
        lemma_no_upper_absent(l2, tst);
        lemma_no_upper_absent(l3, tst);
        lemma_no_upper_absent(l4, tst);
        lemma_no_upper_absent(l5, tst);
        lemma_no_upper_absent(l6, tst);
        lemma_no_upper_absent(v_http, tst);
        lemma_no_upper_absent(v_https, tst);
        assert(tct[6] != tst[6]);
        lemma_neq_absent(tct, tst);
        lemma_long_absent(tky, tst);
        lemma_absent_tok(tpx, tst, 6);
        let ghost pa = seq![l0, v_http, l1, v_https, l2];
        let ghost pb = seq![l3, tct, l4, tky, l5, tpx, l6];
        lemma_replace_parts(pa, tst, pb, v_site);
        assert(pa + seq![tst] + pb =~= lst2);
        assert(pa + seq![v_site] + pb =~= seq![l0, v_http, l1, v_https, l2, v_site, l3, tct, l4, tky, l5, tpx, l6]);
    }
    let ghost lst3 = seq![l0, v_http, l1, v_https, l2, v_site, l3, tct, l4, tky, l5, tpx, l6];
    proof {
        assert(s3@ == concat_parts(lst3));
    }
    let s4 = replace_all(s3.as_str(), "VALET_CERT", cert.as_str());
    proof {
        assert(all_ph(tct));
        lemma_no_upper_absent(l0, tct);
        lemma_no_upper_absent(l1, tct);
        lemma_no_upper_absent(l2, tct);
        lemma_no_upper_absent(l3, tct);
        lemma_no_upper_absent(l4, tct);
        lemma_no_upper_absent(l5, tct);
        lemma_no_upper_absent(l6, tct);
        lemma_no_upper_absent(v_http, tct);
        lemma_no_upper_absent(v_https, tct);
        lemma_no_upper_absent(v_site, tct);
        lemma_long_absent(tky, tct);
        lemma_absent_tok(tpx, tct, 6);
        let ghost pa = seq![l0, v_http, l1, v_https, l2, v_site, l3];
        let ghost pb = seq![l4, tky, l5, tpx, l6];
        lemma_replace_parts(pa, tct, pb, v_cert);
        assert(pa + seq![tct] + pb =~= lst3);
        assert(pa + seq![v_cert] + pb =~= seq![l0, v_http, l1, v_https, l2, v_site, l3, v_cert, l4, tky, l5, tpx, l6]);
    }
    let ghost lst4 = seq![l0, v_http, l1, v_https, l2, v_site, l3, v_cert, l4, tky, l5, tpx, l6];
    proof {
        assert(s4@ == concat_parts(lst4));
    }
    let s5 = replace_all(s4.as_str(), "VALET_KEY", key.as_str());
    proof {
        assert(all_ph(tky));
        lemma_no_upper_absent(l0, tky);
        lemma_no_upper_absent(l1, tky);
        lemma_no_upper_absent(l2, tky);
        lemma_no_upper_absent(l3, tky);
        lemma_no_upper_absent(l4, tky);
        lemma_no_upper_absent(l5, tky);
        lemma_no_upper_absent(l6, tky);
        lemma_no_upper_absent(v_http, tky);
        lemma_no_upper_absent(v_https, tky);
        lemma_no_upper_absent(v_site, tky);
        lemma_no_upper_absent(v_cert, tky);
        lemma_absent_tok(tpx, tky, 6);
        let ghost pa = seq![l0, v_http, l1, v_https, l2, v_site, l3, v_cert, l4];
        let ghost pb = seq![l5, tpx, l6];
        lemma_replace_parts(pa, tky, pb, v_key);
        assert(pa + seq![tky] + pb =~= lst4);
        assert(pa + seq![v_key] + pb =~= seq![l0, v_http, l1, v_https, l2, v_site, l3, v_cert, l4, v_key, l5, tpx, l6]);
    }
    let ghost lst5 = seq![l0, v_http, l1, v_https, l2, v_site, l3, v_cert, l4, v_key, l5, tpx, l6];
    proof {
        assert(s5@ == concat_parts(lst5));
    }
    let s6 = replace_all(s5.as_str(), "VALET_PROXY_HOST", target);
    proof {
        assert(all_ph(tpx));
        lemma_no_upper_absent(l0, tpx);
        lemma_no_upper_absent(l1, tpx);
        lemma_no_upper_absent(l2, tpx);
        lemma_no_upper_absent(l3, tpx);
        lemma_no_upper_absent(l4, tpx);
        lemma_no_upper_absent(l5, tpx);
        lemma_no_upper_absent(l6, tpx);
        lemma_no_upper_absent(v_http, tpx);
        lemma_no_upper_absent(v_https, tpx);
        lemma_no_upper_absent(v_site, tpx);
        lemma_no_upper_absent(v_cert, tpx);
        lemma_no_upper_absent(v_key, tpx);
        let ghost pa = seq![l0, v_http, l1, v_https, l2, v_site, l3, v_cert, l4, v_key, l5];
        let ghost pb = seq![l6];
        lemma_replace_parts(pa, tpx, pb, v_tgt);
        assert(pa + seq![tpx] + pb =~= lst5);
        assert(pa + seq![v_tgt] + pb =~= seq![l0, v_http, l1, v_https, l2, v_site, l3, v_cert, l4, v_key, l5, v_tgt, l6]);
    }
    let ghost lst6 = seq![l0, v_http, l1, v_https, l2, v_site, l3, v_cert, l4, v_key, l5, v_tgt, l6];
    proof {
        assert(s6@ == concat_parts(lst6));
    }
    proof {
        assert(lst6 =~= seq![l0, v_http, l1, v_https, l2, v_site, l3, v_cert, l4, v_key, l5, v_tgt, l6]);
        assert(s6@ == spec_rendered_proxy_secure(target@, params@));
    }
    s6
}

/// The built-in template for an unsecured plain site.
fn template_plain() -> (t: String)
    ensures
        t@ == concat_parts(seq!["# valet stub: valet.conf\nserver {\n    listen "@, "VALET_HTTP_PORT"@, ";\n    server_name "@, "VALET_SITE"@, ";\n    root "@, "VALET_HOME_PATH"@, "/sites;\n    index "@, "VALET_SERVER_PATH"@, ";\n    location "@, "VALET_STATIC_PREFIX"@, "/ {\n        internal;\n    }\n    fastcgi_pass unix:"@, "VALET_FPM_SOCKET_FILE"@, ";\n}\n"@]),
{
    let mut t = "# valet stub: valet.conf\nserver {\n    listen ".to_owned();
    t.append("VALET_HTTP_PORT");
    t.append(";\n    server_name ");
    t.append("VALET_SITE");
    t.append(";\n    root ");
    t.append("VALET_HOME_PATH");
    t.append("/sites;\n    index ");
    t.append("VALET_SERVER_PATH");
    t.append(";\n    location ");
    t.append("VALET_STATIC_PREFIX");
    t.append("/ {\n        internal;\n    }\n    fastcgi_pass unix:");
    t.append("VALET_FPM_SOCKET_FILE");
    t.append(";\n}\n");
    proof {
        lemma_concat_parts_13(
            "# valet stub: valet.conf\nserver {\n    listen "@,
            "VALET_HTTP_PORT"@,
            ";\n    server_name "@,
            "VALET_SITE"@,
            ";\n    root "@,
            "VALET_HOME_PATH"@,
            "/sites;\n    index "@,
            "VALET_SERVER_PATH"@,
            ";\n    location "@,
            "VALET_STATIC_PREFIX"@,
            "/ {\n        internal;\n    }\n    fastcgi_pass unix:"@,
            "VALET_FPM_SOCKET_FILE"@,
            ";\n}\n"@,
        );
    }
    t
}

/// Renders the template for an unsecured plain site by substituting its placeholders.
fn render_plain(params: &RenderParams) -> (r: String)
    requires
        params_ok(params@),
    ensures
        r@ == spec_rendered_plain(params@),
{
    let t0 = template_plain();
    let ghost l0 = "# valet stub: valet.conf\nserver {\n    listen "@;
    let ghost l1 = ";\n    server_name "@;
    let ghost l2 = ";\n    root "@;
    let ghost l3 = "/sites;\n    index "@;
    let ghost l4 = ";\n    location "@;
    let ghost l5 = "/ {\n        internal;\n    }\n    fastcgi_pass unix:"@;
    let ghost l6 = ";\n}\n"@;
    let ghost th = "VALET_HTTP_PORT"@;
    let ghost thm = "VALET_HOME_PATH"@;
    let ghost tsk = "VALET_FPM_SOCKET_FILE"@;
    let ghost tsp = "VALET_STATIC_PREFIX"@;
    let ghost tst = "VALET_SITE"@;
    let ghost tsv = "VALET_SERVER_PATH"@;
    let ghost v_http = params@.http_port;
    let ghost v_site = params@.site;
    let ghost v_home = params@.home_path;
    let ghost v_srv = params@.server_path;
    let ghost v_stat = params@.static_prefix;
    let ghost v_sock = params@.socket_path;
    proof {
        reveal_strlit("# valet stub: valet.conf\nserver {\n    listen ");
        reveal_strlit(";\n    server_name ");
        reveal_strlit(";\n    root ");
        reveal_strlit("/sites;\n    index ");
        reveal_strlit(";\n    location ");
        reveal_strlit("/ {\n        internal;\n    }\n    fastcgi_pass unix:");
        reveal_strlit(";\n}\n");
        reveal_strlit("VALET_HTTP_PORT");
        reveal_strlit("VALET_HOME_PATH");
        reveal_strlit("VALET_FPM_SOCKET_FILE");
        reveal_strlit("VALET_STATIC_PREFIX");
        reveal_strlit("VALET_SITE");
        reveal_strlit("VALET_SERVER_PATH");
    }
    let ghost lst0 = seq![l0, th, l1, tst, l2, thm, l3, tsv, l4, tsp, l5, tsk, l6];
    proof {
        assert(t0@ == concat_parts(lst0));
    }
    let s1 = replace_all(t0.as_str(), "VALET_HTTP_PORT", params.http_port.as_str());
    proof {
        assert(all_ph(th));
        lemma_no_upper_absent(l0, th);
        lemma_no_upper_absent(l1, th);
        lemma_no_upper_absent(l2, th);
        lemma_no_upper_absent(l3, th);
        lemma_no_upper_absent(l4, th);
        lemma_no_upper_absent(l5, th);
        lemma_no_upper_absent(l6, th);
        lemma_long_absent(tst, th);
        assert(thm[7] != th[7]);
        lemma_neq_absent(thm, th);
        lemma_absent_tok(tsv, th, 6);
        lemma_absent_tok(tsp, th, 6);
        lemma_absent_tok(tsk, th, 6);
        let ghost pa = seq![l0];
        let ghost pb = seq![l1, tst, l2, thm, l3, tsv, l4, tsp, l5, tsk, l6];
        lemma_replace_parts(pa, th, pb, v_http);
        assert(pa + seq![th] + pb =~= lst0);
        assert(pa + seq![v_http] + pb =~= seq![l0, v_http, l1, tst, l2, thm, l3, tsv, l4, tsp, l5, tsk, l6]);
    }
    let ghost lst1 = seq![l0, v_http, l1, tst, l2, thm, l3, tsv, l4, tsp, l5, tsk, l6];
    proof {
        assert(s1@ == concat_parts(lst1));
    }
    let s2 = replace_all(s1.as_str(), "VALET_SITE", params.site.as_str());
    proof {
        assert(all_ph(tst));
        lemma_no_upper_absent(l0, tst);
        lemma_no_upper_absent(l1, tst);
        lemma_no_upper_absent(l2, tst);
        lemma_no_upper_absent(l3, tst);
        lemma_no_upper_absent(l4, tst);
        lemma_no_upper_absent(l5, tst);
        lemma_no_upper_absent(l6, tst);
        lemma_no_upper_absent(v_http, tst);
        lemma_absent_tok(thm, tst, 6);
        lemma_absent_tok(tsv, tst, 7);
        lemma_absent_tok(tsp, tst, 7);
        lemma_absent_tok(tsk, tst, 6);
        let ghost pa = seq![l0, v_http, l1];
        let ghost pb = seq![l2, thm, l3, tsv, l4, tsp, l5, tsk, l6];
        lemma_replace_parts(pa, tst, pb, v_site);
        assert(pa + seq![tst] + pb =~= lst1);
        assert(pa + seq![v_site] + pb =~= seq![l0, v_http, l1, v_site, l2, thm, l3, tsv, l4, tsp, l5, tsk, l6]);
    }
    let ghost lst2 = seq![l0, v_http, l1, v_site, l2, thm, l3, tsv, l4, tsp, l5, tsk, l6];
    proof {
        assert(s2@ == concat_parts(lst2));
    }
    let s3 = replace_all(s2.as_str(), "VALET_HOME_PATH", params.home_path.as_str());
    proof {
        assert(all_ph(thm));
        lemma_no_upper_absent(l0, thm);
        lemma_no_upper_absent(l1, thm);
        lemma_no_upper_absent(l2, thm);
        lemma_no_upper_absent(l3, thm);
        lemma_no_upper_absent(l4, thm);
        lemma_no_upper_absent(l5, thm);
        lemma_no_upper_absent(l6, thm);
        lemma_no_upper_absent(v_http, thm);
        lemma_no_upper_absent(v_site, thm);
        lemma_absent_tok(tsv, thm, 6);
        lemma_absent_tok(tsp, thm, 6);
        lemma_absent_tok(tsk, thm, 6);
        let ghost pa = seq![l0, v_http, l1, v_site, l2];
        let ghost pb = seq![l3, tsv, l4, tsp, l5, tsk, l6];
        lemma_replace_parts(pa, thm, pb, v_home);
        assert(pa + seq![thm] + pb =~= lst2);
        assert(pa + seq![v_home] + pb =~= seq![l0, v_http, l1, v_site, l2, v_home, l3, tsv, l4, tsp, l5, tsk, l6]);
    }
    let ghost lst3 = seq![l0, v_http, l1, v_site, l2, v_home, l3, tsv, l4, tsp, l5, tsk, l6];
    proof {
        assert(s3@ == concat_parts(lst3));
    }
    let s4 = replace_all(s3.as_str(), "VALET_SERVER_PATH", params.server_path.as_str());
    proof {
        assert(all_ph(tsv));
        lemma_no_upper_absent(l0, tsv);
        lemma_no_upper_absent(l1, tsv);
        lemma_no_upper_absent(l2, tsv);
        lemma_no_upper_absent(l3, tsv);
        lemma_no_upper_absent(l4, tsv);
        lemma_no_upper_absent(l5, tsv);
        lemma_no_upper_absent(l6, tsv);
        lemma_no_upper_absent(v_http, tsv);
        lemma_no_upper_absent(v_site, tsv);
        lemma_no_upper_absent(v_home, tsv);
        lemma_absent_tok(tsp, tsv, 7);
        lemma_absent_tok(tsk, tsv, 6);
        let ghost pa = seq![l0, v_http, l1, v_site, l2, v_home, l3];
        let ghost pb = seq![l4, tsp, l5, tsk, l6];
        lemma_replace_parts(pa, tsv, pb, v_srv);
        assert(pa + seq![tsv] + pb =~= lst3);
        assert(pa + seq![v_srv] + pb =~= seq![l0, v_http, l1, v_site, l2, v_home, l3, v_srv, l4, tsp, l5, tsk, l6]);
    }
    let ghost lst4 = seq![l0, v_http, l1, v_site, l2, v_home, l3, v_srv, l4, tsp, l5, tsk, l6];
    proof {
        assert(s4@ == concat_parts(lst4));
    }
    let s5 = replace_all(s4.as_str(), "VALET_STATIC_PREFIX", params.static_prefix.as_str());
    proof {
        assert(all_ph(tsp));
        lemma_no_upper_absent(l0, tsp);
        lemma_no_upper_absent(l1, tsp);
        lemma_no_upper_absent(l2, tsp);
        lemma_no_upper_absent(l3, tsp);
        lemma_no_upper_absent(l4, tsp);
        lemma_no_upper_absent(l5, tsp);
        lemma_no_upper_absent(l6, tsp);
        lemma_no_upper_absent(v_http, tsp);
        lemma_no_upper_absent(v_site, tsp);
        lemma_no_upper_absent(v_home, tsp);
        lemma_no_upper_absent(v_srv, tsp);
        lemma_absent_tok(tsk, tsp, 6);
        let ghost pa = seq![l0, v_http, l1, v_site, l2, v_home, l3, v_srv, l4];
        let ghost pb = seq![l5, tsk, l6];
        lemma_replace_parts(pa, tsp, pb, v_stat);
        assert(pa + seq![tsp] + pb =~= lst4);
        assert(pa + seq![v_stat] + pb =~= seq![l0, v_http, l1, v_site, l2, v_home, l3, v_srv, l4, v_stat, l5, tsk, l6]);
    }
    let ghost lst5 = seq![l0, v_http, l1, v_site, l2, v_home, l3, v_srv, l4, v_stat, l5, tsk, l6];
    proof {
        assert(s5@ == concat_parts(lst5));
    }
    let s6 = replace_all(s5.as_str(), "VALET_FPM_SOCKET_FILE", params.socket_path.as_str());
    proof {
        assert(all_ph(tsk));
        lemma_no_upper_absent(l0, tsk);
        lemma_no_upper_absent(l1, tsk);
        lemma_no_upper_absent(l2, tsk);
        lemma_no_upper_absent(l3, tsk);
        lemma_no_upper_absent(l4, tsk);
        lemma_no_upper_absent(l5, tsk);
        lemma_no_upper_absent(l6, tsk);
        lemma_no_upper_absent(v_http, tsk);
        lemma_no_upper_absent(v_site, tsk);
        lemma_no_upper_absent(v_home, tsk);
        lemma_no_upper_absent(v_srv, tsk);
        lemma_no_upper_absent(v_stat, tsk);
        let ghost pa = seq![l0, v_http, l1, v_site, l2, v_home, l3, v_srv, l4, v_stat, l5];
        let ghost pb = seq![l6];
        lemma_replace_parts(pa, tsk, pb, v_sock);
        assert(pa + seq![tsk] + pb =~= lst5);
        assert(pa + seq![v_sock] + pb =~= seq![l0, v_http, l1, v_site, l2, v_home, l3, v_srv, l4, v_stat, l5, v_sock, l6]);
    }
    let ghost lst6 = seq![l0, v_http, l1, v_site, l2, v_home, l3, v_srv, l4, v_stat, l5, v_sock, l6];
    proof {
        assert(s6@ == concat_parts(lst6));
    }
    proof {
        assert(lst6 =~= seq![l0, v_http, l1, v_site, l2, v_home, l3, v_srv, l4, v_stat, l5, v_sock, l6]);
        assert(s6@ == spec_rendered_plain(params@));
    }
    s6
}

/// The built-in template for a secured plain site.
fn template_plain_secure() -> (t: String)
    ensures
        t@ == concat_parts(seq!["# valet stub: secure.valet.conf\nserver {\n    listen "@, "VALET_HTTP_PORT"@, ";\n    return 301 https://$host$request_uri;\n}\nserver {\n    listen "@, "VALET_HTTPS_PORT"@, " ssl;\n    server_name "@, "VALET_SITE"@, ";\n    ssl_certificate "@, "VALET_CERT"@, ";\n    ssl_certificate_key "@, "VALET_KEY"@, ";\n    root "@, "VALET_HOME_PATH"@, "/sites;\n    index "@, "VALET_SERVER_PATH"@, ";\n    location "@, "VALET_STATIC_PREFIX"@, "/ {\n        internal;\n    }\n    fastcgi_pass unix:"@, "VALET_FPM_SOCKET_FILE"@, ";\n}\n"@]),
{
    let mut t = "# valet stub: secure.valet.conf\nserver {\n    listen ".to_owned();
    t.append("VALET_HTTP_PORT");
    t.append(";\n    return 301 https://$host$request_uri;\n}\nserver {\n    listen ");
    t.append("VALET_HTTPS_PORT");
    t.append(" ssl;\n    server_name ");
    t.append("VALET_SITE");
    t.append(";\n    ssl_certificate ");
    t.append("VALET_CERT");
    t.append(";\n    ssl_certificate_key ");
    t.append("VALET_KEY");
    t.append(";\n    root ");
    t.append("VALET_HOME_PATH");
    t.append("/sites;\n    index ");
    t.append("VALET_SERVER_PATH");
    t.append(";\n    location ");
    t.append("VALET_STATIC_PREFIX");
    t.append("/ {\n        internal;\n    }\n    fastcgi_pass unix:");
    t.append("VALET_FPM_SOCKET_FILE");
    t.append(";\n}\n");
    proof {
        lemma_concat_parts_19(
            "# valet stub: secure.valet.conf\nserver {\n    listen "@,
            "VALET_HTTP_PORT"@,
            ";\n    return 301 https://$host$request_uri;\n}\nserver {\n    listen "@,
            "VALET_HTTPS_PORT"@,
            " ssl;\n    server_name "@,
            "VALET_SITE"@,
            ";\n    ssl_certificate "@,
            "VALET_CERT"@,
            ";\n    ssl_certificate_key "@,
            "VALET_KEY"@,
            ";\n    root "@,
            "VALET_HOME_PATH"@,
            "/sites;\n    index "@,
            "VALET_SERVER_PATH"@,
            ";\n    location "@,
            "VALET_STATIC_PREFIX"@,
            "/ {\n        internal;\n    }\n    fastcgi_pass unix:"@,
            "VALET_FPM_SOCKET_FILE"@,
            ";\n}\n"@,
        );
    }
    t
}

/// Renders the template for a secured plain site by substituting its placeholders.
fn render_plain_secure(params: &RenderParams) -> (r: String)
    requires
        params_ok(params@),
    ensures
        r@ == spec_rendered_plain_secure(params@),
{
    let t0 = template_plain_secure();
    let cert = cert_path(params.home_path.as_str(), params.site.as_str());
    let key = key_path(params.home_path.as_str(), params.site.as_str());
    let ghost l0 = "# valet stub: secure.valet.conf\nserver {\n    listen "@;
    let ghost l1 = ";\n    return 301 https://$host$request_uri;\n}\nserver {\n    listen "@;
    let ghost l2 = " ssl;\n    server_name "@;
    let ghost l3 = ";\n    ssl_certificate "@;
    let ghost l4 = ";\n    ssl_certificate_key "@;
    let ghost l5 = ";\n    root "@;
    let ghost l6 = "/sites;\n    index "@;
    let ghost l7 = ";\n    location "@;
    let ghost l8 = "/ {\n        internal;\n    }\n    fastcgi_pass unix:"@;
    let ghost l9 = ";\n}\n"@;
    let ghost tct = "VALET_CERT"@;
    let ghost th = "VALET_HTTP_PORT"@;
    let ghost thm = "VALET_HOME_PATH"@;
    let ghost ths = "VALET_HTTPS_PORT"@;
    let ghost tky = "VALET_KEY"@;
    let ghost tsk = "VALET_FPM_SOCKET_FILE"@;
    let ghost tsp = "VALET_STATIC_PREFIX"@;
    let ghost tst = "VALET_SITE"@;
    let ghost tsv = "VALET_SERVER_PATH"@;
    let ghost v_http = params@.http_port;
    let ghost v_https = params@.https_port;
    let ghost v_site = params@.site;
    let ghost v_cert = cert@;
    let ghost v_key = key@;
    let ghost v_home = params@.home_path;
    let ghost v_srv = params@.server_path;
    let ghost v_stat = params@.static_prefix;
    let ghost v_sock = params@.socket_path;
    proof {
        reveal_strlit("# valet stub: secure.valet.conf\nserver {\n    listen ");
        reveal_strlit(";\n    return 301 https://$host$request_uri;\n}\nserver {\n    listen ");
        reveal_strlit(" ssl;\n    server_name ");
        reveal_strlit(";\n    ssl_certificate ");
        reveal_strlit(";\n    ssl_certificate_key ");
        reveal_strlit(";\n    root ");
        reveal_strlit("/sites;\n    index ");
        reveal_strlit(";\n    location ");
        reveal_strlit("/ {\n        internal;\n    }\n    fastcgi_pass unix:");
        reveal_strlit(";\n}\n");
        reveal_strlit("VALET_CERT");
        reveal_strlit("VALET_HTTP_PORT");
        reveal_strlit("VALET_HOME_PATH");
        reveal_strlit("VALET_HTTPS_PORT");
        reveal_strlit("VALET_KEY");
        reveal_strlit("VALET_FPM_SOCKET_FILE");
        reveal_strlit("VALET_STATIC_PREFIX");
        reveal_strlit("VALET_SITE");
        reveal_strlit("VALET_SERVER_PATH");
        reveal_strlit("/certificates/");
        reveal_strlit(".crt");
        reveal_strlit(".key");
        lemma_no_upper_concat(params@.home_path, "/certificates/"@);
        lemma_no_upper_concat(params@.home_path + "/certificates/"@, params@.site);
        lemma_no_upper_concat(params@.home_path + "/certificates/"@ + params@.site, ".crt"@);
        lemma_no_upper_concat(params@.home_path + "/certificates/"@ + params@.site, ".key"@);
        assert(no_upper(v_cert) && v_cert.len() > 0);
        assert(no_upper(v_key) && v_key.len() > 0);
    }
    let ghost lst0 = seq![l0, th, l1, ths, l2, tst, l3, tct, l4, tky, l5, thm, l6, tsv, l7, tsp, l8, tsk, l9];
    proof {
        assert(t0@ == concat_parts(lst0));
    }
    let s1 = replace_all(t0.as_str(), "VALET_HTTP_PORT", params.http_port.as_str());
    proof {
        assert(all_ph(th));
        lemma_no_upper_absent(l0, th);
        lemma_no_upper_absent(l1, th);
        lemma_no_upper_absent(l2, th);
        lemma_no_upper_absent(l3, th);
        lemma_no_upper_absent(l4, th);
        lemma_no_upper_absent(l5, th);
        lemma_no_upper_absent(l6, th);
        lemma_no_upper_absent(l7, th);
        lemma_no_upper_absent(l8, th);
        lemma_no_upper_absent(l9, th);
        lemma_absent_tok(ths, th, 10);
        lemma_long_absent(tst, th);
        lemma_long_absent(tct, th);
        lemma_long_absent(tky, th);
        assert(thm[7] != th[7]);
        lemma_neq_absent(thm, th);
        lemma_absent_tok(tsv, th, 6);
        lemma_absent_tok(tsp, th, 6);
        lemma_absent_tok(tsk, th, 6);
        let ghost pa = seq![l0];
        let ghost pb = seq![l1, ths, l2, tst, l3, tct, l4, tky, l5, thm, l6, tsv, l7, tsp, l8, tsk, l9];
        lemma_replace_parts(pa, th, pb, v_http);
        assert(pa + seq![th] + pb =~= lst0);
        assert(pa + seq![v_http] + pb =~= seq![l0, v_http, l1, ths, l2, tst, l3, tct, l4, tky, l5, thm, l6, tsv, l7, tsp, l8, tsk, l9]);
    }
    let ghost lst1 = seq![l0, v_http, l1, ths, l2, tst, l3, tct, l4, tky, l5, thm, l6, tsv, l7, tsp, l8, tsk, l9];
    proof {
        assert(s1@ == concat_parts(lst1));
    }
    let s2 = replace_all(s1.as_str(), "VALET_HTTPS_PORT", params.https_port.as_str());
    proof {
        assert(all_ph(ths));
        lemma_no_upper_absent(l0, ths);
        lemma_no_upper_absent(l1, ths);
        lemma_no_upper_absent(l2, ths);
        lemma_no_upper_absent(l3, ths);
        lemma_no_upper_absent(l4, ths);
        lemma_no_upper_absent(l5, ths);
        lemma_no_upper_absent(l6, ths);
        lemma_no_upper_absent(l7, ths);
        lemma_no_upper_absent(l8, ths);
        lemma_no_upper_absent(l9, ths);
        lemma_no_upper_absent(v_http, ths);
        lemma_long_absent(tst, ths);
        lemma_long_absent(tct, ths);
        lemma_long_absent(tky, ths);
        lemma_long_absent(thm, ths);
        lemma_absent_tok(tsv, ths, 6);
        lemma_absent_tok(tsp, ths, 6);
        lemma_absent_tok(tsk, ths, 6);
        let ghost pa = seq![l0, v_http, l1];
        let ghost pb = seq![l2, tst, l3, tct, l4, tky, l5, thm, l6, tsv, l7, tsp, l8, tsk, l9];
        lemma_replace_parts(pa, ths, pb, v_https);
        assert(pa + seq![ths] + pb =~= lst1);
        assert(pa + seq![v_https] + pb =~= seq![l0, v_http, l1, v_https, l2, tst, l3, tct, l4, tky, l5, thm, l6, tsv, l7, tsp, l8, tsk, l9]);
    }
    let ghost lst2 = seq![l0, v_http, l1, v_https, l2, tst, l3, tct, l4, tky, l5, thm, l6, tsv, l7, tsp, l8, tsk, l9];
    proof {
        assert(s2@ == concat_parts(lst2));
    }
    let s3 = replace_all(s2.as_str(), "VALET_SITE", params.site.as_str());
    proof {
        assert(all_ph(tst));
        lemma_no_upper_absent(l0, tst);
        lemma_no_upper_absent(l1, tst);
        lemma_no_upper_absent(l2, tst);
        lemma_no_upper_absent(l3, tst);
        lemma_no_upper_absent(l4, tst);
        lemma_no_upper_absent(l5, tst);
        lemma_no_upper_absent(l6, tst);
        lemma_no_upper_absent(l7, tst);
        lemma_no_upper_absent(l8, tst);
        lemma_no_upper_absent(l9, tst);
        lemma_no_upper_absent(v_http, tst);
        lemma_no_upper_absent(v_https, tst);
        assert(tct[6] != tst[6]);
        lemma_neq_absent(tct, tst);
        lemma_long_absent(tky, tst);
        lemma_absent_tok(thm, tst, 6);
        lemma_absent_tok(tsv, tst, 7);
        lemma_absent_tok(tsp, tst, 7);
        lemma_absent_tok(tsk, tst, 6);
        let ghost pa = seq![l0, v_http, l1, v_https, l2];
        let ghost pb = seq![l3, tct, l4, tky, l5, thm, l6, tsv, l7, tsp, l8, tsk, l9];
        lemma_replace_parts(pa, tst, pb, v_site);
        assert(pa + seq![tst] + pb =~= lst2);
        assert(pa + seq![v_site] + pb =~= seq![l0, v_http, l1, v_https, l2, v_site, l3, tct, l4, tky, l5, thm, l6, tsv, l7, tsp, l8, tsk, l9]);
    }
    let ghost lst3 = seq![l0, v_http, l1, v_https, l2, v_site, l3, tct, l4, tky, l5, thm, l6, tsv, l7, tsp, l8, tsk, l9];
    proof {
        assert(s3@ == concat_parts(lst3));
    }
    let s4 = replace_all(s3.as_str(), "VALET_CERT", cert.as_str());
    proof {
        assert(all_ph(tct));
        lemma_no_upper_absent(l0, tct);
        lemma_no_upper_absent(l1, tct);
        lemma_no_upper_absent(l2, tct);
        lemma_no_upper_absent(l3, tct);
        lemma_no_upper_absent(l4, tct);
        lemma_no_upper_absent(l5, tct);
        lemma_no_upper_absent(l6, tct);
        lemma_no_upper_absent(l7, tct);
        lemma_no_upper_absent(l8, tct);
        lemma_no_upper_absent(l9, tct);
        lemma_no_upper_absent(v_http, tct);
        lemma_no_upper_absent(v_https, tct);
        lemma_no_upper_absent(v_site, tct);
        lemma_long_absent(tky, tct);
        lemma_absent_tok(thm, tct, 6);
        lemma_absent_tok(tsv, tct, 6);
        lemma_absent_tok(tsp, tct, 6);
        lemma_absent_tok(tsk, tct, 6);
        let ghost pa = seq![l0, v_http, l1, v_https, l2, v_site, l3];
        let ghost pb = seq![l4, tky, l5, thm, l6, tsv, l7, tsp, l8, tsk, l9];
        lemma_replace_parts(pa, tct, pb, v_cert);
        assert(pa + seq![tct] + pb =~= lst3);
        assert(pa + seq![v_cert] + pb =~= seq![l0, v_http, l1, v_https, l2, v_site, l3, v_cert, l4, tky, l5, thm, l6, tsv, l7, tsp, l8, tsk, l9]);
    }
    let ghost lst4 = seq![l0, v_http, l1, v_https, l2, v_site, l3, v_cert, l4, tky, l5, thm, l6, tsv, l7, tsp, l8, tsk, l9];
    proof {
        assert(s4@ == concat_parts(lst4));
    }
    let s5 = replace_all(s4.as_str(), "VALET_KEY", key.as_str());
    proof {
        assert(all_ph(tky));
        lemma_no_upper_absent(l0, tky);
        lemma_no_upper_absent(l1, tky);
        lemma_no_upper_absent(l2, tky);
        lemma_no_upper_absent(l3, tky);
        lemma_no_upper_absent(l4, tky);
        lemma_no_upper_absent(l5, tky);
        lemma_no_upper_absent(l6, tky);
        lemma_no_upper_absent(l7, tky);
        lemma_no_upper_absent(l8, tky);
        lemma_no_upper_absent(l9, tky);
        lemma_no_upper_absent(v_http, tky);
        lemma_no_upper_absent(v_https, tky);
        lemma_no_upper_absent(v_site, tky);
        lemma_no_upper_absent(v_cert, tky);
        lemma_absent_tok(thm, tky, 6);
        lemma_absent_tok(tsv, tky, 6);
        lemma_absent_tok(tsp, tky, 6);
        lemma_absent_tok(tsk, tky, 6);
        let ghost pa = seq![l0, v_http, l1, v_https, l2, v_site, l3, v_cert, l4];
        let ghost pb = seq![l5, thm, l6, tsv, l7, tsp, l8, tsk, l9];
        lemma_replace_parts(pa, tky, pb, v_key);
        assert(pa + seq![tky] + pb =~= lst4);
        assert(pa + seq![v_key] + pb =~= seq![l0, v_http, l1, v_https, l2, v_site, l3, v_cert, l4, v_key, l5, thm, l6, tsv, l7, tsp, l8, tsk, l9]);
    }
    let ghost lst5 = seq![l0, v_http, l1, v_https, l2, v_site, l3, v_cert, l4, v_key, l5, thm, l6, tsv, l7, tsp, l8, tsk, l9];
    proof {
        assert(s5@ == concat_parts(lst5));
    }
    let s6 = replace_all(s5.as_str(), "VALET_HOME_PATH", params.home_path.as_str());
    proof {
        assert(all_ph(thm));
        lemma_no_upper_absent(l0, thm);
        lemma_no_upper_absent(l1, thm);
        lemma_no_upper_absent(l2, thm);
        lemma_no_upper_absent(l3, thm);
        lemma_no_upper_absent(l4, thm);
        lemma_no_upper_absent(l5, thm);
        lemma_no_upper_absent(l6, thm);
        lemma_no_upper_absent(l7, thm);
        lemma_no_upper_absent(l8, thm);
        lemma_no_upper_absent(l9, thm);
        lemma_no_upper_absent(v_http, thm);
        lemma_no_upper_absent(v_https, thm);
        lemma_no_upper_absent(v_site, thm);
        lemma_no_upper_absent(v_cert, thm);
        lemma_no_upper_absent(v_key, thm);
        lemma_absent_tok(tsv, thm, 6);
        lemma_absent_tok(tsp, thm, 6);
        lemma_absent_tok(tsk, thm, 6);
        let ghost pa = seq![l0, v_http, l1, v_https, l2, v_site, l3, v_cert, l4, v_key, l5];
        let ghost pb = seq![l6, tsv, l7, tsp, l8, tsk, l9];
        lemma_replace_parts(pa, thm, pb, v_home);
        assert(pa + seq![thm] + pb =~= lst5);
        assert(pa + seq![v_home] + pb =~= seq![l0, v_http, l1, v_https, l2, v_site, l3, v_cert, l4, v_key, l5, v_home, l6, tsv, l7, tsp, l8, tsk, l9]);
    }
    let ghost lst6 = seq![l0, v_http, l1, v_https, l2, v_site, l3, v_cert, l4, v_key, l5, v_home, l6, tsv, l7, tsp, l8, tsk, l9];
    proof {
        assert(s6@ == concat_parts(lst6));
    }
    let s7 = replace_all(s6.as_str(), "VALET_SERVER_PATH", params.server_path.as_str());
    proof {
        assert(all_ph(tsv));
        lemma_no_upper_absent(l0, tsv);
        lemma_no_upper_absent(l1, tsv);
        lemma_no_upper_absent(l2, tsv);
        lemma_no_upper_absent(l3, tsv);
        lemma_no_upper_absent(l4, tsv);
        lemma_no_upper_absent(l5, tsv);
        lemma_no_upper_absent(l6, tsv);
        lemma_no_upper_absent(l7, tsv);
        lemma_no_upper_absent(l8, tsv);
        lemma_no_upper_absent(l9, tsv);
        lemma_no_upper_absent(v_http, tsv);
        lemma_no_upper_absent(v_https, tsv);
        lemma_no_upper_absent(v_site, tsv);
        lemma_no_upper_absent(v_cert, tsv);
        lemma_no_upper_absent(v_key, tsv);
        lemma_no_upper_absent(v_home, tsv);
        lemma_absent_tok(tsp, tsv, 7);
        lemma_absent_tok(tsk, tsv, 6);
        let ghost pa = seq![l0, v_http, l1, v_https, l2, v_site, l3, v_cert, l4, v_key, l5, v_home, l6];
        let ghost pb = seq![l7, tsp, l8, tsk, l9];
        lemma_replace_parts(pa, tsv, pb, v_srv);
        assert(pa + seq![tsv] + pb =~= lst6);
        assert(pa + seq![v_srv] + pb =~= seq![l0, v_http, l1, v_https, l2, v_site, l3, v_cert, l4, v_key, l5, v_home, l6, v_srv, l7, tsp, l8, tsk, l9]);
    }
    let ghost lst7 = seq![l0, v_http, l1, v_https, l2, v_site, l3, v_cert, l4, v_key, l5, v_home, l6, v_srv, l7, tsp, l8, tsk, l9];
    proof {
        assert(s7@ == concat_parts(lst7));
    }
    let s8 = replace_all(s7.as_str(), "VALET_STATIC_PREFIX", params.static_prefix.as_str());
    proof {
        assert(all_ph(tsp));
        lemma_no_upper_absent(l0, tsp);
        lemma_no_upper_absent(l1, tsp);
        lemma_no_upper_absent(l2, tsp);
        lemma_no_upper_absent(l3, tsp);
        lemma_no_upper_absent(l4, tsp);
        lemma_no_upper_absent(l5, tsp);
        lemma_no_upper_absent(l6, tsp);
        lemma_no_upper_absent(l7, tsp);
        lemma_no_upper_absent(l8, tsp);
        lemma_no_upper_absent(l9, tsp);
        lemma_no_upper_absent(v_http, tsp);
        lemma_no_upper_absent(v_https, tsp);
        lemma_no_upper_absent(v_site, tsp);
        lemma_no_upper_absent(v_cert, tsp);
        lemma_no_upper_absent(v_key, tsp);
        lemma_no_upper_absent(v_home, tsp);
        lemma_no_upper_absent(v_srv, tsp);
        lemma_absent_tok(tsk, tsp, 6);
        let ghost pa = seq![l0, v_http, l1, v_https, l2, v_site, l3, v_cert, l4, v_key, l5, v_home, l6, v_srv, l7];
        let ghost pb = seq![l8, tsk, l9];
        lemma_replace_parts(pa, tsp, pb, v_stat);
        assert(pa + seq![tsp] + pb =~= lst7);
        assert(pa + seq![v_stat] + pb =~= seq![l0, v_http, l1, v_https, l2, v_site, l3, v_cert, l4, v_key, l5, v_home, l6, v_srv, l7, v_stat, l8, tsk, l9]);
    }
    let ghost lst8 = seq![l0, v_http, l1, v_https, l2, v_site, l3, v_cert, l4, v_key, l5, v_home, l6, v_srv, l7, v_stat, l8, tsk, l9];
    proof {
        assert(s8@ == concat_parts(lst8));
    }
    let s9 = replace_all(s8.as_str(), "VALET_FPM_SOCKET_FILE", params.socket_path.as_str());
    proof {
        assert(all_ph(tsk));
        lemma_no_upper_absent(l0, tsk);
        lemma_no_upper_absent(l1, tsk);
        lemma_no_upper_absent(l2, tsk);
        lemma_no_upper_absent(l3, tsk);
        lemma_no_upper_absent(l4, tsk);
        lemma_no_upper_absent(l5, tsk);
        lemma_no_upper_absent(l6, tsk);
        lemma_no_upper_absent(l7, tsk);
        lemma_no_upper_absent(l8, tsk);
        lemma_no_upper_absent(l9, tsk);
        lemma_no_upper_absent(v_http, tsk);
        lemma_no_upper_absent(v_https, tsk);
        lemma_no_upper_absent(v_site, tsk);
        lemma_no_upper_absent(v_cert, tsk);
        lemma_no_upper_absent(v_key, tsk);
        lemma_no_upper_absent(v_home, tsk);
        lemma_no_upper_absent(v_srv, tsk);
        lemma_no_upper_absent(v_stat, tsk);
        let ghost pa = seq![l0, v_http, l1, v_https, l2, v_site, l3, v_cert, l4, v_key, l5, v_home, l6, v_srv, l7, v_stat, l8];
        let ghost pb = seq![l9];
        lemma_replace_parts(pa, tsk, pb, v_sock);
        assert(pa + seq![tsk] + pb =~= lst8);
        assert(pa + seq![v_sock] + pb =~= seq![l0, v_http, l1, v_https, l2, v_site, l3, v_cert, l4, v_key, l5, v_home, l6, v_srv, l7, v_stat, l8, v_sock, l9]);
    }
    let ghost lst9 = seq![l0, v_http, l1, v_https, l2, v_site, l3, v_cert, l4, v_key, l5, v_home, l6, v_srv, l7, v_stat, l8, v_sock, l9];
    proof {
        assert(s9@ == concat_parts(lst9));
    }
    proof {
        assert(lst9 =~= seq![l0, v_http, l1, v_https, l2, v_site, l3, v_cert, l4, v_key, l5, v_home, l6, v_srv, l7, v_stat, l8, v_sock, l9]);
        assert(s9@ == spec_rendered_plain_secure(params@));
    }
    s9
}

/// The built-in template for an unsecured isolated site.
fn template_isolated() -> (t: String)
    ensures
        t@ == concat_parts(seq!["# valet stub: isolated.conf\n# ISOLATED_PHP_VERSION="@, "VALET_ISOLATED_PHP_VERSION"@, "\nserver {\n    listen "@, "VALET_HTTP_PORT"@, ";\n    server_name "@, "VALET_SITE"@, ";\n    root "@, "VALET_HOME_PATH"@, "/sites;\n    index "@, "VALET_SERVER_PATH"@, ";\n    fastcgi_pass unix:"@, "VALET_FPM_SOCKET_FILE"@, ";\n}\n"@]),
{
    let mut t = "# valet stub: isolated.conf\n# ISOLATED_PHP_VERSION=".to_owned();
    t.append("VALET_ISOLATED_PHP_VERSION");
    t.append("\nserver {\n    listen ");
    t.append("VALET_HTTP_PORT");
    t.append(";\n    server_name ");
    t.append("VALET_SITE");
    t.append(";\n    root ");
    t.append("VALET_HOME_PATH");
    t.append("/sites;\n    index ");
    t.append("VALET_SERVER_PATH");
    t.append(";\n    fastcgi_pass unix:");
    t.append("VALET_FPM_SOCKET_FILE");
    t.append(";\n}\n");
    proof {
        lemma_concat_parts_13(
            "# valet stub: isolated.conf\n# ISOLATED_PHP_VERSION="@,
            "VALET_ISOLATED_PHP_VERSION"@,
            "\nserver {\n    listen "@,
            "VALET_HTTP_PORT"@,
            ";\n    server_name "@,
            "VALET_SITE"@,
            ";\n    root "@,
            "VALET_HOME_PATH"@,
            "/sites;\n    index "@,
            "VALET_SERVER_PATH"@,
            ";\n    fastcgi_pass unix:"@,
            "VALET_FPM_SOCKET_FILE"@,
            ";\n}\n"@,
        );
    }
    t
}

/// Renders the template for an unsecured isolated site by substituting its placeholders.
fn render_isolated(version: &str, params: &RenderParams) -> (r: String)
    requires
        value_ok(version@),
        params_ok(params@),
    ensures
        r@ == spec_rendered_isolated(version@, params@),
{
    let t0 = template_isolated();
    let ghost l0 = "# valet stub: isolated.conf\n# ISOLATED_PHP_VERSION="@;
    let ghost l1 = "\nserver {\n    listen "@;
    let ghost l2 = ";\n    server_name "@;
    let ghost l3 = ";\n    root "@;
    let ghost l4 = "/sites;\n    index "@;
    let ghost l5 = ";\n    fastcgi_pass unix:"@;
    let ghost l6 = ";\n}\n"@;
    let ghost th = "VALET_HTTP_PORT"@;
    let ghost thm = "VALET_HOME_PATH"@;
    let ghost tiv = "VALET_ISOLATED_PHP_VERSION"@;
    let ghost tsk = "VALET_FPM_SOCKET_FILE"@;
    let ghost tst = "VALET_SITE"@;
    let ghost tsv = "VALET_SERVER_PATH"@;
    let ghost v_ver = version@;
    let ghost v_http = params@.http_port;
    let ghost v_site = params@.site;
    let ghost v_home = params@.home_path;
    let ghost v_srv = params@.server_path;
    let ghost v_sock = params@.socket_path;
    proof {
        reveal_strlit("# valet stub: isolated.conf\n# ISOLATED_PHP_VERSION=");
        reveal_strlit("\nserver {\n    listen ");
        reveal_strlit(";\n    server_name ");
        reveal_strlit(";\n    root ");
        reveal_strlit("/sites;\n    index ");
        reveal_strlit(";\n    fastcgi_pass unix:");
        reveal_strlit(";\n}\n");
        reveal_strlit("VALET_HTTP_PORT");
        reveal_strlit("VALET_HOME_PATH");
        reveal_strlit("VALET_ISOLATED_PHP_VERSION");
        reveal_strlit("VALET_FPM_SOCKET_FILE");
        reveal_strlit("VALET_SITE");
        reveal_strlit("VALET_SERVER_PATH");
    }
    let ghost lst0 = seq![l0, tiv, l1, th, l2, tst, l3, thm, l4, tsv, l5, tsk, l6];
    proof {
        assert(t0@ == concat_parts(lst0));
    }
    let s1 = replace_all(t0.as_str(), "VALET_ISOLATED_PHP_VERSION", version);
    proof {
        assert(all_ph(tiv));
        lemma_absent_tok(l0, tiv, 0);
        lemma_no_upper_absent(l1, tiv);
        lemma_no_upper_absent(l2, tiv);
        lemma_no_upper_absent(l3, tiv);
        lemma_no_upper_absent(l4, tiv);
        lemma_no_upper_absent(l5, tiv);
        lemma_no_upper_absent(l6, tiv);
        lemma_long_absent(th, tiv);
        lemma_long_absent(tst, tiv);
        lemma_long_absent(thm, tiv);
        lemma_long_absent(tsv, tiv);
        lemma_long_absent(tsk, tiv);
        let ghost pa = seq![l0];
        let ghost pb = seq![l1, th, l2, tst, l3, thm, l4, tsv, l5, tsk, l6];
        lemma_replace_parts(pa, tiv, pb, v_ver);
        assert(pa + seq![tiv] + pb =~= lst0);
        assert(pa + seq![v_ver] + pb =~= seq![l0, v_ver, l1, th, l2, tst, l3, thm, l4, tsv, l5, tsk, l6]);
    }
    let ghost lst1 = seq![l0, v_ver, l1, th, l2, tst, l3, thm, l4, tsv, l5, tsk, l6];
    proof {
        assert(s1@ == concat_parts(lst1));
    }
    let s2 = replace_all(s1.as_str(), "VALET_HTTP_PORT", params.http_port.as_str());
    proof {
        assert(all_ph(th));
        lemma_absent_tok(l0, th, 0);
        lemma_no_upper_absent(l1, th);
        lemma_no_upper_absent(l2, th);
        lemma_no_upper_absent(l3, th);
        lemma_no_upper_absent(l4, th);
        lemma_no_upper_absent(l5, th);
        lemma_no_upper_absent(l6, th);
        lemma_no_upper_absent(v_ver, th);
        lemma_long_absent(tst, th);
        assert(thm[7] != th[7]);
        lemma_neq_absent(thm, th);
        lemma_absent_tok(tsv, th, 6);
        lemma_absent_tok(tsk, th, 6);
        let ghost pa = seq![l0, v_ver, l1];
        let ghost pb = seq![l2, tst, l3, thm, l4, tsv, l5, tsk, l6];
        lemma_replace_parts(pa, th, pb, v_http);
        assert(pa + seq![th] + pb =~= lst1);
        assert(pa + seq![v_http] + pb =~= seq![l0, v_ver, l1, v_http, l2, tst, l3, thm, l4, tsv, l5, tsk, l6]);
    }
    let ghost lst2 = seq![l0, v_ver, l1, v_http, l2, tst, l3, thm, l4, tsv, l5, tsk, l6];
    proof {
        assert(s2@ == concat_parts(lst2));
    }
    let s3 = replace_all(s2.as_str(), "VALET_SITE", params.site.as_str());
    proof {
        assert(all_ph(tst));
        lemma_absent_tok(l0, tst, 0);
        lemma_no_upper_absent(l1, tst);
        lemma_no_upper_absent(l2, tst);
        lemma_no_upper_absent(l3, tst);
        lemma_no_upper_absent(l4, tst);
        lemma_no_upper_absent(l5, tst);
        lemma_no_upper_absent(l6, tst);
        lemma_no_upper_absent(v_ver, tst);
        lemma_no_upper_absent(v_http, tst);
        lemma_absent_tok(thm, tst, 6);
        lemma_absent_tok(tsv, tst, 7);
        lemma_absent_tok(tsk, tst, 6);
        let ghost pa = seq![l0, v_ver, l1, v_http, l2];
        let ghost pb = seq![l3, thm, l4, tsv, l5, tsk, l6];
        lemma_replace_parts(pa, tst, pb, v_site);
        assert(pa + seq![tst] + pb =~= lst2);
        assert(pa + seq![v_site] + pb =~= seq![l0, v_ver, l1, v_http, l2, v_site, l3, thm, l4, tsv, l5, tsk, l6]);
    }
    let ghost lst3 = seq![l0, v_ver, l1, v_http, l2, v_site, l3, thm, l4, tsv, l5, tsk, l6];
    proof {
        assert(s3@ == concat_parts(lst3));
    }
    let s4 = replace_all(s3.as_str(), "VALET_HOME_PATH", params.home_path.as_str());
    proof {
        assert(all_ph(thm));
        lemma_absent_tok(l0, thm, 0);
        lemma_no_upper_absent(l1, thm);
        lemma_no_upper_absent(l2, thm);
        lemma_no_upper_absent(l3, thm);
        lemma_no_upper_absent(l4, thm);
        lemma_no_upper_absent(l5, thm);
        lemma_no_upper_absent(l6, thm);
        lemma_no_upper_absent(v_ver, thm);
        lemma_no_upper_absent(v_http, thm);
        lemma_no_upper_absent(v_site, thm);
        lemma_absent_tok(tsv, thm, 6);
        lemma_absent_tok(tsk, thm, 6);
        let ghost pa = seq![l0, v_ver, l1, v_http, l2, v_site, l3];
        let ghost pb = seq![l4, tsv, l5, tsk, l6];
        lemma_replace_parts(pa, thm, pb, v_home);
        assert(pa + seq![thm] + pb =~= lst3);
        assert(pa + seq![v_home] + pb =~= seq![l0, v_ver, l1, v_http, l2, v_site, l3, v_home, l4, tsv, l5, tsk, l6]);
    }
    let ghost lst4 = seq![l0, v_ver, l1, v_http, l2, v_site, l3, v_home, l4, tsv, l5, tsk, l6];
    proof {
        assert(s4@ == concat_parts(lst4));
    }
    let s5 = replace_all(s4.as_str(), "VALET_SERVER_PATH", params.server_path.as_str());
    proof {
        assert(all_ph(tsv));
        lemma_absent_tok(l0, tsv, 0);
        lemma_no_upper_absent(l1, tsv);
        lemma_no_upper_absent(l2, tsv);
        lemma_no_upper_absent(l3, tsv);
        lemma_no_upper_absent(l4, tsv);
        lemma_no_upper_absent(l5, tsv);
        lemma_no_upper_absent(l6, tsv);
        lemma_no_upper_absent(v_ver, tsv);
        lemma_no_upper_absent(v_http, tsv);
        lemma_no_upper_absent(v_site, tsv);
        lemma_no_upper_absent(v_home, tsv);
        lemma_absent_tok(tsk, tsv, 6);
        let ghost pa = seq![l0, v_ver, l1, v_http, l2, v_site, l3, v_home, l4];
        let ghost pb = seq![l5, tsk, l6];
        lemma_replace_parts(pa, tsv, pb, v_srv);
        assert(pa + seq![tsv] + pb =~= lst4);
        assert(pa + seq![v_srv] + pb =~= seq![l0, v_ver, l1, v_http, l2, v_site, l3, v_home, l4, v_srv, l5, tsk, l6]);
    }
    let ghost lst5 = seq![l0, v_ver, l1, v_http, l2, v_site, l3, v_home, l4, v_srv, l5, tsk, l6];
    proof {
        assert(s5@ == concat_parts(lst5));
    }
    let s6 = replace_all(s5.as_str(), "VALET_FPM_SOCKET_FILE", params.socket_path.as_str());
    proof {
        assert(all_ph(tsk));
        lemma_absent_tok(l0, tsk, 0);
        lemma_no_upper_absent(l1, tsk);
        lemma_no_upper_absent(l2, tsk);
        lemma_no_upper_absent(l3, tsk);
        lemma_no_upper_absent(l4, tsk);
        lemma_no_upper_absent(l5, tsk);
        lemma_no_upper_absent(l6, tsk);
        lemma_no_upper_absent(v_ver, tsk);
        lemma_no_upper_absent(v_http, tsk);
        lemma_no_upper_absent(v_site, tsk);
        lemma_no_upper_absent(v_home, tsk);
        lemma_no_upper_absent(v_srv, tsk);
        let ghost pa = seq![l0, v_ver, l1, v_http, l2, v_site, l3, v_home, l4, v_srv, l5];
        let ghost pb = seq![l6];
        lemma_replace_parts(pa, tsk, pb, v_sock);
        assert(pa + seq![tsk] + pb =~= lst5);
        assert(pa + seq![v_sock] + pb =~= seq![l0, v_ver, l1, v_http, l2, v_site, l3, v_home, l4, v_srv, l5, v_sock, l6]);
    }
    let ghost lst6 = seq![l0, v_ver, l1, v_http, l2, v_site, l3, v_home, l4, v_srv, l5, v_sock, l6];
    proof {
        assert(s6@ == concat_parts(lst6));
    }
    proof {
        assert(lst6 =~= seq![l0, v_ver, l1, v_http, l2, v_site, l3, v_home, l4, v_srv, l5, v_sock, l6]);
        assert(s6@ == spec_rendered_isolated(version@, params@));
    }
    s6
}

/// The built-in template for a secured isolated site.
fn template_isolated_secure() -> (t: String)
    ensures
        t@ == concat_parts(seq!["# valet stub: secure.isolated.conf\n# ISOLATED_PHP_VERSION="@, "VALET_ISOLATED_PHP_VERSION"@, "\nserver {\n    listen "@, "VALET_HTTP_PORT"@, ";\n    return 301 https://$host$request_uri;\n}\nserver {\n    listen "@, "VALET_HTTPS_PORT"@, " ssl;\n    server_name "@, "VALET_SITE"@, ";\n    ssl_certificate "@, "VALET_CERT"@, ";\n    ssl_certificate_key "@, "VALET_KEY"@, ";\n    root "@, "VALET_HOME_PATH"@, "/sites;\n    index "@, "VALET_SERVER_PATH"@, ";\n    fastcgi_pass unix:"@, "VALET_FPM_SOCKET_FILE"@, ";\n}\n"@]),
{
    let mut t = "# valet stub: secure.isolated.conf\n# ISOLATED_PHP_VERSION=".to_owned();
    t.append("VALET_ISOLATED_PHP_VERSION");
    t.append("\nserver {\n    listen ");
    t.append("VALET_HTTP_PORT");
    t.append(";\n    return 301 https://$host$request_uri;\n}\nserver {\n    listen ");
    t.append("VALET_HTTPS_PORT");
    t.append(" ssl;\n    server_name ");
    t.append("VALET_SITE");
    t.append(";\n    ssl_certificate ");
    t.append("VALET_CERT");
    t.append(";\n    ssl_certificate_key ");
    t.append("VALET_KEY");
    t.append(";\n    root ");
    t.append("VALET_HOME_PATH");
    t.append("/sites;\n    index ");
    t.append("VALET_SERVER_PATH");
    t.append(";\n    fastcgi_pass unix:");
    t.append("VALET_FPM_SOCKET_FILE");
    t.append(";\n}\n");
    proof {
        lemma_concat_parts_19(
            "# valet stub: secure.isolated.conf\n# ISOLATED_PHP_VERSION="@,
            "VALET_ISOLATED_PHP_VERSION"@,
            "\nserver {\n    listen "@,
            "VALET_HTTP_PORT"@,
            ";\n    return 301 https://$host$request_uri;\n}\nserver {\n    listen "@,
            "VALET_HTTPS_PORT"@,
            " ssl;\n    server_name "@,
            "VALET_SITE"@,
            ";\n    ssl_certificate "@,
            "VALET_CERT"@,
            ";\n    ssl_certificate_key "@,
            "VALET_KEY"@,
            ";\n    root "@,
            "VALET_HOME_PATH"@,
            "/sites;\n    index "@,
            "VALET_SERVER_PATH"@,
            ";\n    fastcgi_pass unix:"@,
            "VALET_FPM_SOCKET_FILE"@,
            ";\n}\n"@,
        );
    }
    t
}

/// Renders the template for a secured isolated site by substituting its placeholders.
fn render_isolated_secure(version: &str, params: &RenderParams) -> (r: String)
    requires
        value_ok(version@),
        params_ok(params@),
    ensures
        r@ == spec_rendered_isolated_secure(version@, params@),
{
    let t0 = template_isolated_secure();
    let cert = cert_path(params.home_path.as_str(), params.site.as_str());
    let key = key_path(params.home_path.as_str(), params.site.as_str());
    let ghost l0 = "# valet stub: secure.isolated.conf\n# ISOLATED_PHP_VERSION="@;
    let ghost l1 = "\nserver {\n    listen "@;
    let ghost l2 = ";\n    return 301 https://$host$request_uri;\n}\nserver {\n    listen "@;
    let ghost l3 = " ssl;\n    server_name "@;
    let ghost l4 = ";\n    ssl_certificate "@;
    let ghost l5 = ";\n    ssl_certificate_key "@;
    let ghost l6 = ";\n    root "@;
    let ghost l7 = "/sites;\n    index "@;
    let ghost l8 = ";\n    fastcgi_pass unix:"@;
    let ghost l9 = ";\n}\n"@;
    let ghost tct = "VALET_CERT"@;
    let ghost th = "VALET_HTTP_PORT"@;
    let ghost thm = "VALET_HOME_PATH"@;
    let ghost ths = "VALET_HTTPS_PORT"@;
    let ghost tiv = "VALET_ISOLATED_PHP_VERSION"@;
    let ghost tky = "VALET_KEY"@;
    let ghost tsk = "VALET_FPM_SOCKET_FILE"@;
    let ghost tst = "VALET_SITE"@;
    let ghost tsv = "VALET_SERVER_PATH"@;
    let ghost v_ver = version@;
    let ghost v_http = params@.http_port;
    let ghost v_https = params@.https_port;
    let ghost v_site = params@.site;
    let ghost v_cert = cert@;
    let ghost v_key = key@;
    let ghost v_home = params@.home_path;
    let ghost v_srv = params@.server_path;
    let ghost v_sock = params@.socket_path;
    proof {
        reveal_strlit("# valet stub: secure.isolated.conf\n# ISOLATED_PHP_VERSION=");
        reveal_strlit("\nserver {\n    listen ");
        reveal_strlit(";\n    return 301 https://$host$request_uri;\n}\nserver {\n    listen ");
        reveal_strlit(" ssl;\n    server_name ");
        reveal_strlit(";\n    ssl_certificate ");
        reveal_strlit(";\n    ssl_certificate_key ");
        reveal_strlit(";\n    root ");
        reveal_strlit("/sites;\n    index ");
        reveal_strlit(";\n    fastcgi_pass unix:");
        reveal_strlit(";\n}\n");
        reveal_strlit("VALET_CERT");
        reveal_strlit("VALET_HTTP_PORT");
        reveal_strlit("VALET_HOME_PATH");
        reveal_strlit("VALET_HTTPS_PORT");
        reveal_strlit("VALET_ISOLATED_PHP_VERSION");
        reveal_strlit("VALET_KEY");
        reveal_strlit("VALET_FPM_SOCKET_FILE");
        reveal_strlit("VALET_SITE");
        reveal_strlit("VALET_SERVER_PATH");
        reveal_strlit("/certificates/");
        reveal_strlit(".crt");
        reveal_strlit(".key");
        lemma_no_upper_concat(params@.home_path, "/certificates/"@);
        lemma_no_upper_concat(params@.home_path + "/certificates/"@, params@.site);
        lemma_no_upper_concat(params@.home_path + "/certificates/"@ + params@.site, ".crt"@);
        lemma_no_upper_concat(params@.home_path + "/certificates/"@ + params@.site, ".key"@);
        assert(no_upper(v_cert) && v_cert.len() > 0);
        assert(no_upper(v_key) && v_key.len() > 0);
    }
    let ghost lst0 = seq![l0, tiv, l1, th, l2, ths, l3, tst, l4, tct, l5, tky, l6, thm, l7, tsv, l8, tsk, l9];
    proof {
        assert(t0@ == concat_parts(lst0));
    }
    let s1 = replace_all(t0.as_str(), "VALET_ISOLATED_PHP_VERSION", version);
    proof {
        assert(all_ph(tiv));
        lemma_absent_tok(l0, tiv, 0);
        lemma_no_upper_absent(l1, tiv);
        lemma_no_upper_absent(l2, tiv);
        lemma_no_upper_absent(l3, tiv);
        lemma_no_upper_absent(l4, tiv);
        lemma_no_upper_absent(l5, tiv);
        lemma_no_upper_absent(l6, tiv);
        lemma_no_upper_absent(l7, tiv);
        lemma_no_upper_absent(l8, tiv);
        lemma_no_upper_absent(l9, tiv);
        lemma_long_absent(th, tiv);
        lemma_long_absent(ths, tiv);
        lemma_long_absent(tst, tiv);
        lemma_long_absent(tct, tiv);
        lemma_long_absent(tky, tiv);
        lemma_long_absent(thm, tiv);
        lemma_long_absent(tsv, tiv);
        lemma_long_absent(tsk, tiv);
        let ghost pa = seq![l0];
        let ghost pb = seq![l1, th, l2, ths, l3, tst, l4, tct, l5, tky, l6, thm, l7, tsv, l8, tsk, l9];
        lemma_replace_parts(pa, tiv, pb, v_ver);
        assert(pa + seq![tiv] + pb =~= lst0);
        assert(pa + seq![v_ver] + pb =~= seq![l0, v_ver, l1, th, l2, ths, l3, tst, l4, tct, l5, tky, l6, thm, l7, tsv, l8, tsk, l9]);
    }
    let ghost lst1 = seq![l0, v_ver, l1, th, l2, ths, l3, tst, l4, tct, l5, tky, l6, thm, l7, tsv, l8, tsk, l9];
    proof {
        assert(s1@ == concat_parts(lst1));
    }
    let s2 = replace_all(s1.as_str(), "VALET_HTTP_PORT", params.http_port.as_str());
    proof {
        assert(all_ph(th));
        lemma_absent_tok(l0, th, 0);
        lemma_no_upper_absent(l1, th);
        lemma_no_upper_absent(l2, th);
        lemma_no_upper_absent(l3, th);
        lemma_no_upper_absent(l4, th);
        lemma_no_upper_absent(l5, th);
        lemma_no_upper_absent(l6, th);
        lemma_no_upper_absent(l7, th);
        lemma_no_upper_absent(l8, th);
        lemma_no_upper_absent(l9, th);
        lemma_no_upper_absent(v_ver, th);
        lemma_absent_tok(ths, th, 10);
        lemma_long_absent(tst, th);
        lemma_long_absent(tct, th);
        lemma_long_absent(tky, th);
        assert(thm[7] != th[7]);
        lemma_neq_absent(thm, th);
        lemma_absent_tok(tsv, th, 6);
        lemma_absent_tok(tsk, th, 6);
        let ghost pa = seq![l0, v_ver, l1];
        let ghost pb = seq![l2, ths, l3, tst, l4, tct, l5, tky, l6, thm, l7, tsv, l8, tsk, l9];
        lemma_replace_parts(pa, th, pb, v_http);
        assert(pa + seq![th] + pb =~= lst1);
        assert(pa + seq![v_http] + pb =~= seq![l0, v_ver, l1, v_http, l2, ths, l3, tst, l4, tct, l5, tky, l6, thm, l7, tsv, l8, tsk, l9]);
    }
    let ghost lst2 = seq![l0, v_ver, l1, v_http, l2, ths, l3, tst, l4, tct, l5, tky, l6, thm, l7, tsv, l8, tsk, l9];
    proof {
        assert(s2@ == concat_parts(lst2));
    }
    let s3 = replace_all(s2.as_str(), "VALET_HTTPS_PORT", params.https_port.as_str());
    proof {
        assert(all_ph(ths));
        lemma_absent_tok(l0, ths, 0);
        lemma_no_upper_absent(l1, ths);
        lemma_no_upper_absent(l2, ths);
        lemma_no_upper_absent(l3, ths);
        lemma_no_upper_absent(l4, ths);
        lemma_no_upper_absent(l5, ths);
        lemma_no_upper_absent(l6, ths);
        lemma_no_upper_absent(l7, ths);
        lemma_no_upper_absent(l8, ths);
        lemma_no_upper_absent(l9, ths);
        lemma_no_upper_absent(v_ver, ths);
        lemma_no_upper_absent(v_http, ths);
        lemma_long_absent(tst, ths);
        lemma_long_absent(tct, ths);
        lemma_long_absent(tky, ths);
        lemma_long_absent(thm, ths);
        lemma_absent_tok(tsv, ths, 6);
        lemma_absent_tok(tsk, ths, 6);
        let ghost pa = seq![l0, v_ver, l1, v_http, l2];
        let ghost pb = seq![l3, tst, l4, tct, l5, tky, l6, thm, l7, tsv, l8, tsk, l9];
        lemma_replace_parts(pa, ths, pb, v_https);
        assert(pa + seq![ths] + pb =~= lst2);
        assert(pa + seq![v_https] + pb =~= seq![l0, v_ver, l1, v_http, l2, v_https, l3, tst, l4, tct, l5, tky, l6, thm, l7, tsv, l8, tsk, l9]);
    }
    let ghost lst3 = seq![l0, v_ver, l1, v_http, l2, v_https, l3, tst, l4, tct, l5, tky, l6, thm, l7, tsv, l8, tsk, l9];
    proof {
        assert(s3@ == concat_parts(lst3));
    }
    let s4 = replace_all(s3.as_str(), "VALET_SITE", params.site.as_str());
    proof {
        assert(all_ph(tst));
        lemma_absent_tok(l0, tst, 0);
        lemma_no_upper_absent(l1, tst);
        lemma_no_upper_absent(l2, tst);
        lemma_no_upper_absent(l3, tst);
        lemma_no_upper_absent(l4, tst);
        lemma_no_upper_absent(l5, tst);
        lemma_no_upper_absent(l6, tst);
        lemma_no_upper_absent(l7, tst);
        lemma_no_upper_absent(l8, tst);
        lemma_no_upper_absent(l9, tst);
        lemma_no_upper_absent(v_ver, tst);
        lemma_no_upper_absent(v_http, tst);
        lemma_no_upper_absent(v_https, tst);
        assert(tct[6] != tst[6]);
        lemma_neq_absent(tct, tst);
        lemma_long_absent(tky, tst);
        lemma_absent_tok(thm, tst, 6);
        lemma_absent_tok(tsv, tst, 7);
        lemma_absent_tok(tsk, tst, 6);
        let ghost pa = seq![l0, v_ver, l1, v_http, l2, v_https, l3];
        let ghost pb = seq![l4, tct, l5, tky, l6, thm, l7, tsv, l8, tsk, l9];
        lemma_replace_parts(pa, tst, pb, v_site);
        assert(pa + seq![tst] + pb =~= lst3);
        assert(pa + seq![v_site] + pb =~= seq![l0, v_ver, l1, v_http, l2, v_https, l3, v_site, l4, tct, l5, tky, l6, thm, l7, tsv, l8, tsk, l9]);
    }
    let ghost lst4 = seq![l0, v_ver, l1, v_http, l2, v_https, l3, v_site, l4, tct, l5, tky, l6, thm, l7, tsv, l8, tsk, l9];
    proof {
        assert(s4@ == concat_parts(lst4));
    }
    let s5 = replace_all(s4.as_str(), "VALET_CERT", cert.as_str());
    proof {
        assert(all_ph(tct));
        lemma_absent_tok(l0, tct, 0);
        lemma_no_upper_absent(l1, tct);
        lemma_no_upper_absent(l2, tct);
        lemma_no_upper_absent(l3, tct);
        lemma_no_upper_absent(l4, tct);
        lemma_no_upper_absent(l5, tct);
        lemma_no_upper_absent(l6, tct);
        lemma_no_upper_absent(l7, tct);
        lemma_no_upper_absent(l8, tct);
        lemma_no_upper_absent(l9, tct);
        lemma_no_upper_absent(v_ver, tct);
        lemma_no_upper_absent(v_http, tct);
        lemma_no_upper_absent(v_https, tct);
        lemma_no_upper_absent(v_site, tct);
        lemma_long_absent(tky, tct);
        lemma_absent_tok(thm, tct, 6);
        lemma_absent_tok(tsv, tct, 6);
        lemma_absent_tok(tsk, tct, 6);
        let ghost pa = seq![l0, v_ver, l1, v_http, l2, v_https, l3, v_site, l4];
        let ghost pb = seq![l5, tky, l6, thm, l7, tsv, l8, tsk, l9];
        lemma_replace_parts(pa, tct, pb, v_cert);
        assert(pa + seq![tct] + pb =~= lst4);
        assert(pa + seq![v_cert] + pb =~= seq![l0, v_ver, l1, v_http, l2, v_https, l3, v_site, l4, v_cert, l5, tky, l6, thm, l7, tsv, l8, tsk, l9]);
    }
    let ghost lst5 = seq![l0, v_ver, l1, v_http, l2, v_https, l3, v_site, l4, v_cert, l5, tky, l6, thm, l7, tsv, l8, tsk, l9];
    proof {
        assert(s5@ == concat_parts(lst5));
    }
    let s6 = replace_all(s5.as_str(), "VALET_KEY", key.as_str());
    proof {
        assert(all_ph(tky));
        lemma_absent_tok(l0, tky, 0);
        lemma_no_upper_absent(l1, tky);
        lemma_no_upper_absent(l2, tky);
        lemma_no_upper_absent(l3, tky);
        lemma_no_upper_absent(l4, tky);
        lemma_no_upper_absent(l5, tky);
        lemma_no_upper_absent(l6, tky);
        lemma_no_upper_absent(l7, tky);
        lemma_no_upper_absent(l8, tky);
        lemma_no_upper_absent(l9, tky);
        lemma_no_upper_absent(v_ver, tky);
        lemma_no_upper_absent(v_http, tky);
        lemma_no_upper_absent(v_https, tky);
        lemma_no_upper_absent(v_site, tky);
        lemma_no_upper_absent(v_cert, tky);
        lemma_absent_tok(thm, tky, 6);
        lemma_absent_tok(tsv, tky, 6);
        lemma_absent_tok(tsk, tky, 6);
        let ghost pa = seq![l0, v_ver, l1, v_http, l2, v_https, l3, v_site, l4, v_cert, l5];
        let ghost pb = seq![l6, thm, l7, tsv, l8, tsk, l9];
        lemma_replace_parts(pa, tky, pb, v_key);
        assert(pa + seq![tky] + pb =~= lst5);
        assert(pa + seq![v_key] + pb =~= seq![l0, v_ver, l1, v_http, l2, v_https, l3, v_site, l4, v_cert, l5, v_key, l6, thm, l7, tsv, l8, tsk, l9]);
    }
    let ghost lst6 = seq![l0, v_ver, l1, v_http, l2, v_https, l3, v_site, l4, v_cert, l5, v_key, l6, thm, l7, tsv, l8, tsk, l9];
    proof {
        assert(s6@ == concat_parts(lst6));
    }
    let s7 = replace_all(s6.as_str(), "VALET_HOME_PATH", params.home_path.as_str());
    proof {
        assert(all_ph(thm));
        lemma_absent_tok(l0, thm, 0);
        lemma_no_upper_absent(l1, thm);
        lemma_no_upper_absent(l2, thm);
        lemma_no_upper_absent(l3, thm);
        lemma_no_upper_absent(l4, thm);
        lemma_no_upper_absent(l5, thm);
        lemma_no_upper_absent(l6, thm);
        lemma_no_upper_absent(l7, thm);
        lemma_no_upper_absent(l8, thm);
        lemma_no_upper_absent(l9, thm);
        lemma_no_upper_absent(v_ver, thm);
        lemma_no_upper_absent(v_http, thm);
        lemma_no_upper_absent(v_https, thm);
        lemma_no_upper_absent(v_site, thm);
        lemma_no_upper_absent(v_cert, thm);
        lemma_no_upper_absent(v_key, thm);
        lemma_absent_tok(tsv, thm, 6);
        lemma_absent_tok(tsk, thm, 6);
        let ghost pa = seq![l0, v_ver, l1, v_http, l2, v_https, l3, v_site, l4, v_cert, l5, v_key, l6];
        let ghost pb = seq![l7, tsv, l8, tsk, l9];
        lemma_replace_parts(pa, thm, pb, v_home);
        assert(pa + seq![thm] + pb =~= lst6);
        assert(pa + seq![v_home] + pb =~= seq![l0, v_ver, l1, v_http, l2, v_https, l3, v_site, l4, v_cert, l5, v_key, l6, v_home, l7, tsv, l8, tsk, l9]);
    }
    let ghost lst7 = seq![l0, v_ver, l1, v_http, l2, v_https, l3, v_site, l4, v_cert, l5, v_key, l6, v_home, l7, tsv, l8, tsk, l9];
    proof {
        assert(s7@ == concat_parts(lst7));
    }
    let s8 = replace_all(s7.as_str(), "VALET_SERVER_PATH", params.server_path.as_str());
    proof {
        assert(all_ph(tsv));
        lemma_absent_tok(l0, tsv, 0);
        lemma_no_upper_absent(l1, tsv);
        lemma_no_upper_absent(l2, tsv);
        lemma_no_upper_absent(l3, tsv);
        lemma_no_upper_absent(l4, tsv);
        lemma_no_upper_absent(l5, tsv);
        lemma_no_upper_absent(l6, tsv);
        lemma_no_upper_absent(l7, tsv);
        lemma_no_upper_absent(l8, tsv);
        lemma_no_upper_absent(l9, tsv);
        lemma_no_upper_absent(v_ver, tsv);
        lemma_no_upper_absent(v_http, tsv);
        lemma_no_upper_absent(v_https, tsv);
        lemma_no_upper_absent(v_site, tsv);
        lemma_no_upper_absent(v_cert, tsv);
        lemma_no_upper_absent(v_key, tsv);
        lemma_no_upper_absent(v_home, tsv);
        lemma_absent_tok(tsk, tsv, 6);
        let ghost pa = seq![l0, v_ver, l1, v_http, l2, v_https, l3, v_site, l4, v_cert, l5, v_key, l6, v_home, l7];
        let ghost pb = seq![l8, tsk, l9];
        lemma_replace_parts(pa, tsv, pb, v_srv);
        assert(pa + seq![tsv] + pb =~= lst7);
        assert(pa + seq![v_srv] + pb =~= seq![l0, v_ver, l1, v_http, l2, v_https, l3, v_site, l4, v_cert, l5, v_key, l6, v_home, l7, v_srv, l8, tsk, l9]);
    }
    let ghost lst8 = seq![l0, v_ver, l1, v_http, l2, v_https, l3, v_site, l4, v_cert, l5, v_key, l6, v_home, l7, v_srv, l8, tsk, l9];
    proof {
        assert(s8@ == concat_parts(lst8));
    }
    let s9 = replace_all(s8.as_str(), "VALET_FPM_SOCKET_FILE", params.socket_path.as_str());
    proof {
        assert(all_ph(tsk));
        lemma_absent_tok(l0, tsk, 0);
        lemma_no_upper_absent(l1, tsk);
        lemma_no_upper_absent(l2, tsk);
        lemma_no_upper_absent(l3, tsk);
        lemma_no_upper_absent(l4, tsk);
        lemma_no_upper_absent(l5, tsk);
        lemma_no_upper_absent(l6, tsk);
        lemma_no_upper_absent(l7, tsk);
        lemma_no_upper_absent(l8, tsk);
        lemma_no_upper_absent(l9, tsk);
        lemma_no_upper_absent(v_ver, tsk);
        lemma_no_upper_absent(v_http, tsk);
        lemma_no_upper_absent(v_https, tsk);
        lemma_no_upper_absent(v_site, tsk);
        lemma_no_upper_absent(v_cert, tsk);
        lemma_no_upper_absent(v_key, tsk);
        lemma_no_upper_absent(v_home, tsk);
        lemma_no_upper_absent(v_srv, tsk);
        let ghost pa = seq![l0, v_ver, l1, v_http, l2, v_https, l3, v_site, l4, v_cert, l5, v_key, l6, v_home, l7, v_srv, l8];
        let ghost pb = seq![l9];
        lemma_replace_parts(pa, tsk, pb, v_sock);
        assert(pa + seq![tsk] + pb =~= lst8);
        assert(pa + seq![v_sock] + pb =~= seq![l0, v_ver, l1, v_http, l2, v_https, l3, v_site, l4, v_cert, l5, v_key, l6, v_home, l7, v_srv, l8, v_sock, l9]);
    }
    let ghost lst9 = seq![l0, v_ver, l1, v_http, l2, v_https, l3, v_site, l4, v_cert, l5, v_key, l6, v_home, l7, v_srv, l8, v_sock, l9];
    proof {
        assert(s9@ == concat_parts(lst9));
    }
    proof {
        assert(lst9 =~= seq![l0, v_ver, l1, v_http, l2, v_https, l3, v_site, l4, v_cert, l5, v_key, l6, v_home, l7, v_srv, l8, v_sock, l9]);
        assert(s9@ == spec_rendered_isolated_secure(version@, params@));
    }
    s9
}

/// The text rendered for proxy plain holds no upper-case letter.
proof fn lemma_proxy_plain_no_upper(target: Seq<char>, p: ParamsSpec)
    requires
        value_ok(target),
        params_ok(p),
    ensures
        no_upper(spec_rendered_proxy_plain(target, p)),
{
    reveal_strlit("# valet stub: proxy.conf\nserver {\n    listen ");
    reveal_strlit(";\n    server_name ");
    reveal_strlit(";\n    location / {\n        proxy_pass ");
    reveal_strlit(";\n    }\n}\n");
    lemma_parts_no_upper(seq!["# valet stub: proxy.conf\nserver {\n    listen "@, p.http_port, ";\n    server_name "@, p.site, ";\n    location / {\n        proxy_pass "@, target, ";\n    }\n}\n"@]);
}

/// The text rendered for proxy secure holds no upper-case letter.
proof fn lemma_proxy_secure_no_upper(target: Seq<char>, p: ParamsSpec)
    requires
        value_ok(target),
        params_ok(p),
    ensures
        no_upper(spec_rendered_proxy_secure(target, p)),
{
    reveal_strlit("# valet stub: secure.proxy.conf\nserver {\n    listen ");
    reveal_strlit(";\n    return 301 https://$host$request_uri;\n}\nserver {\n    listen ");
    reveal_strlit(" ssl;\n    server_name ");
    reveal_strlit(";\n    ssl_certificate ");
    reveal_strlit(";\n    ssl_certificate_key ");
    reveal_strlit(";\n    location / {\n        proxy_pass ");
    reveal_strlit(";\n    }\n}\n");
    reveal_strlit("/certificates/");
    reveal_strlit(".crt");
    reveal_strlit(".key");
    lemma_no_upper_concat(p.home_path, "/certificates/"@);
    lemma_no_upper_concat(p.home_path + "/certificates/"@, p.site);
    lemma_no_upper_concat(p.home_path + "/certificates/"@ + p.site, ".crt"@);
    lemma_no_upper_concat(p.home_path + "/certificates/"@ + p.site, ".key"@);
    lemma_parts_no_upper(seq!["# valet stub: secure.proxy.conf\nserver {\n    listen "@, p.http_port, ";\n    return 301 https://$host$request_uri;\n}\nserver {\n    listen "@, p.https_port, " ssl;\n    server_name "@, p.site, ";\n    ssl_certificate "@, spec_cert_path(p.home_path, p.site), ";\n    ssl_certificate_key "@, spec_key_path(p.home_path, p.site), ";\n    location / {\n        proxy_pass "@, target, ";\n    }\n}\n"@]);
}

/// The text rendered for plain holds no upper-case letter.
proof fn lemma_plain_no_upper(p: ParamsSpec)
    requires
        params_ok(p),
    ensures
        no_upper(spec_rendered_plain(p)),
{
    reveal_strlit("# valet stub: valet.conf\nserver {\n    listen ");
    reveal_strlit(";\n    server_name ");
    reveal_strlit(";\n    root ");
    reveal_strlit("/sites;\n    index ");
    reveal_strlit(";\n    location ");
    reveal_strlit("/ {\n        internal;\n    }\n    fastcgi_pass unix:");
    reveal_strlit(";\n}\n");
    lemma_parts_no_upper(seq!["# valet stub: valet.conf\nserver {\n    listen "@, p.http_port, ";\n    server_name "@, p.site, ";\n    root "@, p.home_path, "/sites;\n    index "@, p.server_path, ";\n    location "@, p.static_prefix, "/ {\n        internal;\n    }\n    fastcgi_pass unix:"@, p.socket_path, ";\n}\n"@]);
}

/// The text rendered for plain secure holds no upper-case letter.
proof fn lemma_plain_secure_no_upper(p: ParamsSpec)
    requires
        params_ok(p),
    ensures
        no_upper(spec_rendered_plain_secure(p)),
{
    reveal_strlit("# valet stub: secure.valet.conf\nserver {\n    listen ");
    reveal_strlit(";\n    return 301 https://$host$request_uri;\n}\nserver {\n    listen ");
    reveal_strlit(" ssl;\n    server_name ");
    reveal_strlit(";\n    ssl_certificate ");
    reveal_strlit(";\n    ssl_certificate_key ");
    reveal_strlit(";\n    root ");
    reveal_strlit("/sites;\n    index ");
    reveal_strlit(";\n    location ");
    reveal_strlit("/ {\n        internal;\n    }\n    fastcgi_pass unix:");
    reveal_strlit(";\n}\n");
    reveal_strlit("/certificates/");
    reveal_strlit(".crt");
    reveal_strlit(".key");
    lemma_no_upper_concat(p.home_path, "/certificates/"@);
    lemma_no_upper_concat(p.home_path + "/certificates/"@, p.site);
    lemma_no_upper_concat(p.home_path + "/certificates/"@ + p.site, ".crt"@);
    lemma_no_upper_concat(p.home_path + "/certificates/"@ + p.site, ".key"@);
    lemma_parts_no_upper(seq!["# valet stub: secure.valet.conf\nserver {\n    listen "@, p.http_port, ";\n    return 301 https://$host$request_uri;\n}\nserver {\n    listen "@, p.https_port, " ssl;\n    server_name "@, p.site, ";\n    ssl_certificate "@, spec_cert_path(p.home_path, p.site), ";\n    ssl_certificate_key "@, spec_key_path(p.home_path, p.site), ";\n    root "@, p.home_path, "/sites;\n    index "@, p.server_path, ";\n    location "@, p.static_prefix, "/ {\n        internal;\n    }\n    fastcgi_pass unix:"@, p.socket_path, ";\n}\n"@]);
}

/// No placeholder token survives in the text rendered for isolated.
proof fn lemma_isolated_absent(version: Seq<char>, p: ParamsSpec, tok: Seq<char>)
    requires
        value_ok(version),
        params_ok(p),
        all_ph(tok),
        tok.len() >= 9,
        tok[0] == 'V',
    ensures
        !contains_seq(spec_rendered_isolated(version, p), tok),
{
    reveal_strlit("# valet stub: isolated.conf\n# ISOLATED_PHP_VERSION=");
    reveal_strlit("\nserver {\n    listen ");
    reveal_strlit(";\n    server_name ");
    reveal_strlit(";\n    root ");
    reveal_strlit("/sites;\n    index ");
    reveal_strlit(";\n    fastcgi_pass unix:");
    reveal_strlit(";\n}\n");
    let lst = seq!["# valet stub: isolated.conf\n# ISOLATED_PHP_VERSION="@, version, "\nserver {\n    listen "@, p.http_port, ";\n    server_name "@, p.site, ";\n    root "@, p.home_path, "/sites;\n    index "@, p.server_path, ";\n    fastcgi_pass unix:"@, p.socket_path, ";\n}\n"@];
    assert(lst.skip(1) =~= seq![version, "\nserver {\n    listen "@, p.http_port, ";\n    server_name "@, p.site, ";\n    root "@, p.home_path, "/sites;\n    index "@, p.server_path, ";\n    fastcgi_pass unix:"@, p.socket_path, ";\n}\n"@]);
    lemma_parts_no_upper(seq![version, "\nserver {\n    listen "@, p.http_port, ";\n    server_name "@, p.site, ";\n    root "@, p.home_path, "/sites;\n    index "@, p.server_path, ";\n    fastcgi_pass unix:"@, p.socket_path, ";\n}\n"@]);
    let rest = concat_parts(lst.skip(1));
    lemma_no_upper_absent(rest, tok);
    let head = "# valet stub: isolated.conf\n# ISOLATED_PHP_VERSION="@;
    lemma_absent_tok(head, tok, 0);
    assert(rest.len() > 0 ==> !is_ph_char(head.last()));
    lemma_concat_absent(head, rest, tok);
    assert(concat_parts(lst) == head + rest);
}

/// No placeholder token survives in the text rendered for isolated secure.
proof fn lemma_isolated_secure_absent(version: Seq<char>, p: ParamsSpec, tok: Seq<char>)
    requires
        value_ok(version),
        params_ok(p),
        all_ph(tok),
        tok.len() >= 9,
        tok[0] == 'V',
    ensures
        !contains_seq(spec_rendered_isolated_secure(version, p), tok),
{
    reveal_strlit("# valet stub: secure.isolated.conf\n# ISOLATED_PHP_VERSION=");
    reveal_strlit("\nserver {\n    listen ");
    reveal_strlit(";\n    return 301 https://$host$request_uri;\n}\nserver {\n    listen ");
    reveal_strlit(" ssl;\n    server_name ");
    reveal_strlit(";\n    ssl_certificate ");
    reveal_strlit(";\n    ssl_certificate_key ");
    reveal_strlit(";\n    root ");
    reveal_strlit("/sites;\n    index ");
    reveal_strlit(";\n    fastcgi_pass unix:");
    reveal_strlit(";\n}\n");
    reveal_strlit("/certificates/");
    reveal_strlit(".crt");
    reveal_strlit(".key");
    lemma_no_upper_concat(p.home_path, "/certificates/"@);
    lemma_no_upper_concat(p.home_path + "/certificates/"@, p.site);
    lemma_no_upper_concat(p.home_path + "/certificates/"@ + p.site, ".crt"@);
    lemma_no_upper_concat(p.home_path + "/certificates/"@ + p.site, ".key"@);
    let lst = seq!["# valet stub: secure.isolated.conf\n# ISOLATED_PHP_VERSION="@, version, "\nserver {\n    listen "@, p.http_port, ";\n    return 301 https://$host$request_uri;\n}\nserver {\n    listen "@, p.https_port, " ssl;\n    server_name "@, p.site, ";\n    ssl_certificate "@, spec_cert_path(p.home_path, p.site), ";\n    ssl_certificate_key "@, spec_key_path(p.home_path, p.site), ";\n    root "@, p.home_path, "/sites;\n    index "@, p.server_path, ";\n    fastcgi_pass unix:"@, p.socket_path, ";\n}\n"@];
    assert(lst.skip(1) =~= seq![version, "\nserver {\n    listen "@, p.http_port, ";\n    return 301 https://$host$request_uri;\n}\nserver {\n    listen "@, p.https_port, " ssl;\n    server_name "@, p.site, ";\n    ssl_certificate "@, spec_cert_path(p.home_path, p.site), ";\n    ssl_certificate_key "@, spec_key_path(p.home_path, p.site), ";\n    root "@, p.home_path, "/sites;\n    index "@, p.server_path, ";\n    fastcgi_pass unix:"@, p.socket_path, ";\n}\n"@]);
    lemma_parts_no_upper(seq![version, "\nserver {\n    listen "@, p.http_port, ";\n    return 301 https://$host$request_uri;\n}\nserver {\n    listen "@, p.https_port, " ssl;\n    server_name "@, p.site, ";\n    ssl_certificate "@, spec_cert_path(p.home_path, p.site), ";\n    ssl_certificate_key "@, spec_key_path(p.home_path, p.site), ";\n    root "@, p.home_path, "/sites;\n    index "@, p.server_path, ";\n    fastcgi_pass unix:"@, p.socket_path, ";\n}\n"@]);
    let rest = concat_parts(lst.skip(1));
    lemma_no_upper_absent(rest, tok);
    let head = "# valet stub: secure.isolated.conf\n# ISOLATED_PHP_VERSION="@;
    lemma_absent_tok(head, tok, 0);
    assert(rest.len() > 0 ==> !is_ph_char(head.last()));
    lemma_concat_absent(head, rest, tok);
    assert(concat_parts(lst) == head + rest);
}

/// Rendering any kind and security combination leaves no placeholder
/// token unresolved in the output.
pub proof fn lemma_rendered_no_placeholder(k: KindSpec, secure: bool, p: ParamsSpec, tok: Seq<char>)
    requires
        params_ok(p),
        kind_values_ok(k),
        tok == "VALET_HTTP_PORT"@ || tok == "VALET_HTTPS_PORT"@ || tok == "VALET_SITE"@ || tok == "VALET_CERT"@ || tok == "VALET_KEY"@ || tok == "VALET_HOME_PATH"@ || tok == "VALET_SERVER_PATH"@ || tok == "VALET_STATIC_PREFIX"@ || tok == "VALET_FPM_SOCKET_FILE"@ || tok == "VALET_PROXY_HOST"@ || tok == "VALET_ISOLATED_PHP_VERSION"@,
    ensures
        !contains_seq(spec_rendered(k, secure, p), tok),
{
    reveal_strlit("VALET_HTTP_PORT");
    reveal_strlit("VALET_HTTPS_PORT");
    reveal_strlit("VALET_SITE");
    reveal_strlit("VALET_CERT");
    reveal_strlit("VALET_KEY");
    reveal_strlit("VALET_HOME_PATH");
    reveal_strlit("VALET_SERVER_PATH");
    reveal_strlit("VALET_STATIC_PREFIX");
    reveal_strlit("VALET_FPM_SOCKET_FILE");
    reveal_strlit("VALET_PROXY_HOST");
    reveal_strlit("VALET_ISOLATED_PHP_VERSION");
    assert(all_ph(tok));
    assert(tok.len() >= 9);
    assert(tok[0] == 'V');
    match k {
        KindSpec::Plain => {
            if secure {
                lemma_plain_secure_no_upper(p);
            } else {
                lemma_plain_no_upper(p);
            }
            lemma_no_upper_absent(spec_rendered(k, secure, p), tok);
        },
        KindSpec::Proxy(t) => {
            if secure {
                lemma_proxy_secure_no_upper(t, p);
            } else {
                lemma_proxy_plain_no_upper(t, p);
            }
            lemma_no_upper_absent(spec_rendered(k, secure, p), tok);
        },
        KindSpec::Isolated(v) => {
            if secure {
                lemma_isolated_secure_absent(v, p, tok);
            } else {
                lemma_isolated_absent(v, p, tok);
            }
        },
    }
}

/// Helper facts about the marker pattern's bigrams.
proof fn lemma_marker_bigrams()
    ensures
        !has_bigram(" stub: "@, 't', ' '),
{
    reveal_strlit(" stub: ");
    let mk = " stub: "@;
    assert(forall|j: int| 0 <= j < mk.len() - 1 && #[trigger] mk[j] == 't' ==> j == 2);
    assert(mk[3] == 'u');
}

/// Recovering a rendered unsecured plain file yields the plain kind.
proof fn lemma_recover_plain(p: ParamsSpec)
    requires
        params_ok(p),
    ensures
        spec_recover(spec_rendered_plain(p)) == Option::<KindSpec>::Some(KindSpec::Plain),
{
    let s = spec_rendered_plain(p);
    let la = "# valet stub: valet.conf\nserver {\n    listen "@;
    reveal_strlit("# valet stub: valet.conf\nserver {\n    listen ");
    reveal_strlit("# valet");
    reveal_strlit(" stub: ");
    reveal_strlit("valet.conf\nserver {\n    listen ");
    reveal_strlit("secure.");
    reveal_strlit("proxy.conf");
    reveal_strlit("isolated.conf");
    let lst = seq![
        la,
        p.http_port,
        ";\n    server_name "@,
        p.site,
        ";\n    root "@,
        p.home_path,
        "/sites;\n    index "@,
        p.server_path,
        ";\n    location "@,
        p.static_prefix,
        "/ {\n        internal;\n    }\n    fastcgi_pass unix:"@,
        p.socket_path,
        ";\n}\n"@,
    ];
    assert(s == concat_parts(lst));
    let rest = concat_parts(lst.skip(1));
    assert(s == la + rest);
    let pre = "# valet"@;
    let mk = " stub: "@;
    let tail = "valet.conf\nserver {\n    listen "@;
    assert(la =~= pre + mk + tail);
    assert(s =~= pre + (mk + (tail + rest)));
    assert((mk + (tail + rest)).subrange(0, 7) =~= mk);
    assert(occurs_at(mk + (tail + rest), mk, 0));
    assert(pre[0] != mk[0]);
    lemma_neq_absent(pre, mk);
    lemma_marker_bigrams();
    lemma_first_occ_concat(pre, mk + (tail + rest), mk);
    assert(first_occ(s, mk) == 7);
    if occurs_at(s, "secure."@, 14) {
        lemma_occ_within_prefix(la, rest, "secure."@, 14);
        assert(la.subrange(14, 21)[0] == la[14]);
        assert(false);
    }
    if occurs_at(s, "proxy.conf"@, 14) {
        lemma_occ_within_prefix(la, rest, "proxy.conf"@, 14);
        assert(la.subrange(14, 24)[0] == la[14]);
        assert(false);
    }
    if occurs_at(s, "isolated.conf"@, 14) {
        lemma_occ_within_prefix(la, rest, "isolated.conf"@, 14);
        assert(la.subrange(14, 27)[0] == la[14]);
        assert(false);
    }
}

/// Recovering a rendered secured plain file yields the plain kind.
proof fn lemma_recover_plain_secure(p: ParamsSpec)
    requires
        params_ok(p),
    ensures
        spec_recover(spec_rendered_plain_secure(p)) == Option::<KindSpec>::Some(KindSpec::Plain),
{
    let s = spec_rendered_plain_secure(p);
    let la = "# valet stub: secure.valet.conf\nserver {\n    listen "@;
    reveal_strlit("# valet stub: secure.valet.conf\nserver {\n    listen ");
    reveal_strlit("# valet");
    reveal_strlit(" stub: ");
    reveal_strlit("secure.valet.conf\nserver {\n    listen ");
    reveal_strlit("secure.");
    reveal_strlit("proxy.conf");
    reveal_strlit("isolated.conf");
    let lst = seq![
        la,
        p.http_port,
        ";\n    return 301 https://$host$request_uri;\n}\nserver {\n    listen "@,
        p.https_port,
        " ssl;\n    server_name "@,
        p.site,
        ";\n    ssl_certificate "@,
        spec_cert_path(p.home_path, p.site),
        ";\n    ssl_certificate_key "@,
        spec_key_path(p.home_path, p.site),
        ";\n    root "@,
        p.home_path,
        "/sites;\n    index "@,
        p.server_path,
        ";\n    location "@,
        p.static_prefix,
        "/ {\n        internal;\n    }\n    fastcgi_pass unix:"@,
        p.socket_path,
        ";\n}\n"@,
    ];
    assert(s == concat_parts(lst));
    let rest = concat_parts(lst.skip(1));
    assert(s == la + rest);
    let pre = "# valet"@;
    let mk = " stub: "@;
    let tail = "secure.valet.conf\nserver {\n    listen "@;
    assert(la =~= pre + mk + tail);
    assert(s =~= pre + (mk + (tail + rest)));
    assert((mk + (tail + rest)).subrange(0, 7) =~= mk);
    assert(occurs_at(mk + (tail + rest), mk, 0));
    assert(pre[0] != mk[0]);
    lemma_neq_absent(pre, mk);
    lemma_marker_bigrams();
    lemma_first_occ_concat(pre, mk + (tail + rest), mk);
    assert(first_occ(s, mk) == 7);
    assert(la.subrange(14, 21) =~= "secure."@);
    lemma_occ_prefix(la, rest, "secure."@, 14);
    assert(occurs_at(s, "secure."@, 14));
    if occurs_at(s, "proxy.conf"@, 21) {
        lemma_occ_within_prefix(la, rest, "proxy.conf"@, 21);
        assert(la.subrange(21, 31)[0] == la[21]);
        assert(false);
    }
    if occurs_at(s, "isolated.conf"@, 21) {
        lemma_occ_within_prefix(la, rest, "isolated.conf"@, 21);
        assert(la.subrange(21, 34)[0] == la[21]);
        assert(false);
    }
}


/// Facts about the bigrams of the proxy directive pattern.
proof fn lemma_proxy_pattern_facts()
    ensures
        "proxy_pass "@.len() == 11,
        "proxy_pass "@[5] == '_',
        "proxy_pass "@[10] == ' ',
        "proxy_pass "@[0] == 'p',
        forall|c: char| !has_bigram("proxy_pass "@, ' ', c),
        forall|c: char| !has_bigram("proxy_pass "@, c, ';'),
{
    reveal_strlit("proxy_pass ");
    let pp = "proxy_pass "@;
    assert forall|c: char| !has_bigram(pp, ' ', c) by {
        assert(forall|j: int| 0 <= j < pp.len() - 1 ==> #[trigger] pp[j] != ' ');
    }
    assert forall|c: char| !has_bigram(pp, c, ';') by {
        assert(forall|j: int| 0 <= j < pp.len() - 1 ==> #[trigger] pp[j + 1] != ';');
    }
}

/// Recovering a rendered unsecured proxy file yields the proxy kind with
/// the same target.
proof fn lemma_recover_proxy_plain(target: Seq<char>, p: ParamsSpec)
    requires
        params_ok(p),
        lacks_char(target, ';'),
        lacks_char(p.site, ' '),
        lacks_char(p.http_port, ' '),
    ensures
        spec_recover(spec_rendered_proxy_plain(target, p)) == Option::<KindSpec>::Some(
            KindSpec::Proxy(target),
        ),
{
    let s = spec_rendered_proxy_plain(target, p);
    let la = "# valet stub: proxy.conf\nserver {\n    listen "@;
    let lb = ";\n    server_name "@;
    let lc = ";\n    location / {\n        proxy_pass "@;
    let ld = ";\n    }\n}\n"@;
    reveal_strlit("# valet stub: proxy.conf\nserver {\n    listen ");
    reveal_strlit(";\n    server_name ");
    reveal_strlit(";\n    location / {\n        proxy_pass ");
    reveal_strlit(";\n    }\n}\n");
    reveal_strlit("# valet");
    reveal_strlit(" stub: ");
    reveal_strlit("proxy.conf\nserver {\n    listen ");
    reveal_strlit("secure.");
    reveal_strlit("proxy.conf");
    reveal_strlit("isolated.conf");
    reveal_strlit("proxy_pass ");
    reveal_strlit(";\n    location / {\n        ");
    reveal_strlit(";");
    let lst = seq![la, p.http_port, lb, p.site, lc, target, ld];
    assert(s == concat_parts(lst));
    let rest = concat_parts(lst.skip(1));
    assert(s == la + rest);
    // the marker line
    let pre = "# valet"@;
    let mk = " stub: "@;
    let tail = "proxy.conf\nserver {\n    listen "@;
    assert(la =~= pre + mk + tail);
    assert(s =~= pre + (mk + (tail + rest)));
    assert((mk + (tail + rest)).subrange(0, 7) =~= mk);
    assert(occurs_at(mk + (tail + rest), mk, 0));
    assert(pre[0] != mk[0]);
    lemma_neq_absent(pre, mk);
    lemma_marker_bigrams();
    lemma_first_occ_concat(pre, mk + (tail + rest), mk);
    assert(first_occ(s, mk) == 7);
    if occurs_at(s, "secure."@, 14) {
        lemma_occ_within_prefix(la, rest, "secure."@, 14);
        assert(la.subrange(14, 21)[0] == la[14]);
        assert(false);
    }
    assert(la.subrange(14, 24) =~= "proxy.conf"@);
    lemma_occ_prefix(la, rest, "proxy.conf"@, 14);
    assert(occurs_at(s, "proxy.conf"@, 14));
    // the proxy directive and its target
    let pp = "proxy_pass "@;
    let lc1 = ";\n    location / {\n        "@;
    lemma_proxy_pattern_facts();
    assert(lc =~= lc1 + pp);
    lemma_concat_parts_7(la, p.http_port, lb, p.site, lc, target, ld);
    assert(s == la + p.http_port + lb + p.site + lc + target + ld);
    let aa = la + p.http_port + lb + p.site + lc1;
    let bb = pp + (target + ld);
    assert(s =~= aa + bb);
    assert(lacks_char(la, '_'));
    lemma_lacks_absent(la, pp, 5);
    lemma_lacks_absent(p.http_port, pp, 10);
    assert(lacks_char(lb, 'p'));
    lemma_lacks_absent(lb, pp, 0);
    lemma_lacks_absent(p.site, pp, 10);
    assert(lacks_char(lc1, 'p'));
    lemma_lacks_absent(lc1, pp, 0);
    lemma_concat_absent_bigram(la, p.http_port, pp);
    assert((la + p.http_port).last() == p.http_port.last());
    lemma_concat_absent_bigram(la + p.http_port, lb, pp);
    assert((la + p.http_port + lb).last() == lb.last());
    lemma_concat_absent_bigram(la + p.http_port + lb, p.site, pp);
    assert((la + p.http_port + lb + p.site).last() == p.site.last());
    lemma_concat_absent_bigram(la + p.http_port + lb + p.site, lc1, pp);
    assert(bb.subrange(0, 11) =~= pp);
    assert(occurs_at(bb, pp, 0));
    assert(aa.last() == lc1.last());
    lemma_first_occ_concat(aa, bb, pp);
    assert(first_occ(s, pp) == aa.len());
    let st = aa.len() as int + 11;
    assert(s.skip(st) =~= target + ld);
    let semi = ";"@;
    lemma_lacks_absent(target, semi, 0);
    assert(ld.subrange(0, 1) =~= semi);
    assert(occurs_at(ld, semi, 0));
    lemma_first_occ_concat(target, ld, semi);
    assert(first_occ(s.skip(st), semi) == target.len() as int);
    assert(s.subrange(st, st + target.len() as int) =~= target);
    assert(spec_proxy_target(s) == Option::<Seq<char>>::Some(target));
}


/// A text of decimal digits.
pub open spec fn all_digits(s: Seq<char>) -> bool {
    forall|i: int| 0 <= i < s.len() ==> 48 <= (s[i] as u32) && (s[i] as u32) <= 57
}

/// A digit string lacks every character that is not a digit.
proof fn lemma_digits_lacks(s: Seq<char>, c: char)
    requires
        all_digits(s),
        (c as u32) < 48 || (c as u32) > 57,
    ensures
        lacks_char(s, c),
{
}

/// Recovering a rendered secured proxy file yields the proxy kind with
/// the same target.
proof fn lemma_recover_proxy_secure(target: Seq<char>, p: ParamsSpec)
    requires
        params_ok(p),
        lacks_char(target, ';'),
        lacks_char(p.site, ' '),
        lacks_char(p.home_path, ' '),
        all_digits(p.http_port),
        all_digits(p.https_port),
    ensures
        spec_recover(spec_rendered_proxy_secure(target, p)) == Option::<KindSpec>::Some(
            KindSpec::Proxy(target),
        ),
{
    let s = spec_rendered_proxy_secure(target, p);
    let la = "# valet stub: secure.proxy.conf\nserver {\n    listen "@;
    let lb = ";\n    return 301 https://$host$request_uri;\n}\nserver {\n    listen "@;
    let lc = " ssl;\n    server_name "@;
    let ld = ";\n    ssl_certificate "@;
    let le = ";\n    ssl_certificate_key "@;
    let lf = ";\n    location / {\n        proxy_pass "@;
    let lg = ";\n    }\n}\n"@;
    let cert = spec_cert_path(p.home_path, p.site);
    let key = spec_key_path(p.home_path, p.site);
    reveal_strlit("# valet stub: secure.proxy.conf\nserver {\n    listen ");
    reveal_strlit(";\n    return 301 https://$host$request_uri;\n}\nserver {\n    listen ");
    reveal_strlit(" ssl;\n    server_name ");
    reveal_strlit(";\n    ssl_certificate ");
    reveal_strlit(";\n    ssl_certificate_key ");
    reveal_strlit(";\n    location / {\n        proxy_pass ");
    reveal_strlit(";\n    }\n}\n");
    reveal_strlit("# valet");
    reveal_strlit(" stub: ");
    reveal_strlit("secure.proxy.conf\nserver {\n    listen ");
    reveal_strlit("secure.");
    reveal_strlit("proxy.conf");
    reveal_strlit("isolated.conf");
    reveal_strlit("proxy_pass ");
    reveal_strlit(";\n    location / {\n        ");
    reveal_strlit("/certificates/");
    reveal_strlit(".crt");
    reveal_strlit(".key");
    reveal_strlit(";");
    let lst = seq![la, p.http_port, lb, p.https_port, lc, p.site, ld, cert, le, key, lf, target, lg];
    assert(s == concat_parts(lst));
    let rest = concat_parts(lst.skip(1));
    assert(s == la + rest);
    // the marker line
    let pre = "# valet"@;
    let mk = " stub: "@;
    let tail = "secure.proxy.conf\nserver {\n    listen "@;
    assert(la =~= pre + mk + tail);
    assert(s =~= pre + (mk + (tail + rest)));
    assert((mk + (tail + rest)).subrange(0, 7) =~= mk);
    assert(occurs_at(mk + (tail + rest), mk, 0));
    assert(pre[0] != mk[0]);
    lemma_neq_absent(pre, mk);
    lemma_marker_bigrams();
    lemma_first_occ_concat(pre, mk + (tail + rest), mk);
    assert(first_occ(s, mk) == 7);
    assert(la.subrange(14, 21) =~= "secure."@);
    lemma_occ_prefix(la, rest, "secure."@, 14);
    assert(occurs_at(s, "secure."@, 14));
    assert(la.subrange(21, 31) =~= "proxy.conf"@);
    lemma_occ_prefix(la, rest, "proxy.conf"@, 21);
    assert(occurs_at(s, "proxy.conf"@, 21));
    // the proxy directive and its target
    let pp = "proxy_pass "@;
    let lf1 = ";\n    location / {\n        "@;
    lemma_proxy_pattern_facts();
    assert(lf =~= lf1 + pp);
    lemma_concat_parts_13(la, p.http_port, lb, p.https_port, lc, p.site, ld, cert, le, key, lf, target, lg);
    assert(s == la + p.http_port + lb + p.https_port + lc + p.site + ld + cert + le + key + lf
        + target + lg);
    let aa = la + p.http_port + lb + p.https_port + lc + p.site + ld + cert + le + key + lf1;
    let bb = pp + (target + lg);
    assert(s =~= aa + bb);
    lemma_digits_lacks(p.http_port, ' ');
    lemma_digits_lacks(p.https_port, ' ');
    assert(lacks_char(la, '_'));
    lemma_lacks_absent(la, pp, 5);
    lemma_lacks_absent(p.http_port, pp, 10);
    assert(lacks_char(lb, 'x'));
    lemma_lacks_absent(lb, pp, 3);
    lemma_lacks_absent(p.https_port, pp, 10);
    assert(lacks_char(lc, 'p'));
    lemma_lacks_absent(lc, pp, 0);
    lemma_lacks_absent(p.site, pp, 10);
    assert(lacks_char(ld, 'p'));
    lemma_lacks_absent(ld, pp, 0);
    assert(lacks_char("/certificates/"@, ' '));
    assert(lacks_char(".crt"@, ' '));
    assert(lacks_char(".key"@, ' '));
    lemma_lacks_concat(p.home_path, "/certificates/"@, ' ');
    lemma_lacks_concat(p.home_path + "/certificates/"@, p.site, ' ');
    lemma_lacks_concat(p.home_path + "/certificates/"@ + p.site, ".crt"@, ' ');
    lemma_lacks_concat(p.home_path + "/certificates/"@ + p.site, ".key"@, ' ');
    lemma_lacks_absent(cert, pp, 10);
    lemma_lacks_absent(key, pp, 10);
    assert(lacks_char(le, 'p'));
    lemma_lacks_absent(le, pp, 0);
    assert(lacks_char(lf1, 'p'));
    lemma_lacks_absent(lf1, pp, 0);
    // fold the region before the directive
    lemma_concat_absent_bigram(la, p.http_port, pp);
    assert((la + p.http_port).last() == p.http_port.last());
    lemma_concat_absent_bigram(la + p.http_port, lb, pp);
    assert((la + p.http_port + lb).last() == lb.last());
    lemma_concat_absent_bigram(la + p.http_port + lb, p.https_port, pp);
    let c4 = la + p.http_port + lb + p.https_port;
    assert(c4.last() == p.https_port.last());
    assert(!has_bigram(pp, c4.last(), lc.first())) by {
        if has_bigram(pp, c4.last(), ' ') {
            let j = choose|j: int|
                0 <= j < pp.len() - 1 && #[trigger] pp[j] == c4.last() && pp[j + 1] == ' ';
            assert(j == 9);
        }
    }
    lemma_concat_absent_bigram(c4, lc, pp);
    assert((c4 + lc).last() == lc.last());
    lemma_concat_absent_bigram(c4 + lc, p.site, pp);
    assert((c4 + lc + p.site).last() == p.site.last());
    lemma_concat_absent_bigram(c4 + lc + p.site, ld, pp);
    let c7 = c4 + lc + p.site + ld;
    assert(c7.last() == ld.last());
    lemma_concat_absent_bigram(c7, cert, pp);
    assert(cert.len() > 0);
    assert((c7 + cert).last() == cert.last());
    assert(!has_bigram(pp, cert.last(), le.first())) by {
        assert(le.first() == ';');
    }
    lemma_concat_absent_bigram(c7 + cert, le, pp);
    assert((c7 + cert + le).last() == le.last());
    lemma_concat_absent_bigram(c7 + cert + le, key, pp);
    let c10 = c7 + cert + le + key;
    assert(key.len() > 0);
    assert(c10.last() == key.last());
    assert(!has_bigram(pp, c10.last(), lf1.first())) by {
        assert(lf1.first() == ';');
    }
    lemma_concat_absent_bigram(c10, lf1, pp);
    assert(aa =~= c10 + lf1);
    assert(bb.subrange(0, 11) =~= pp);
    assert(occurs_at(bb, pp, 0));
    assert(aa.last() == lf1.last());
    lemma_first_occ_concat(aa, bb, pp);
    assert(first_occ(s, pp) == aa.len());
    let st = aa.len() as int + 11;
    assert(s.skip(st) =~= target + lg);
    let semi = ";"@;
    lemma_lacks_absent(target, semi, 0);
    assert(lg.subrange(0, 1) =~= semi);
    assert(occurs_at(lg, semi, 0));
    lemma_first_occ_concat(target, lg, semi);
    assert(first_occ(s.skip(st), semi) == target.len() as int);
    assert(s.subrange(st, st + target.len() as int) =~= target);
    assert(spec_proxy_target(s) == Option::<Seq<char>>::Some(target));
}


/// Recovering a rendered unsecured isolated file yields the isolated kind
/// with the same pinned version.
#[verifier::rlimit(100)]
proof fn lemma_recover_isolated(version: Seq<char>, p: ParamsSpec)
    requires
        params_ok(p),
        value_ok(version),
        lacks_char(version, '\n'),
    ensures
        spec_recover(spec_rendered_isolated(version, p)) == Option::<KindSpec>::Some(
            KindSpec::Isolated(version),
        ),
{
    let s = spec_rendered_isolated(version, p);
    let la = "# valet stub: isolated.conf\n# ISOLATED_PHP_VERSION="@;
    let lb = "\nserver {\n    listen "@;
    reveal_strlit("# valet stub: isolated.conf\n# ISOLATED_PHP_VERSION=");
    reveal_strlit("\nserver {\n    listen ");
    reveal_strlit(";\n    server_name ");
    reveal_strlit(";\n    root ");
    reveal_strlit("/sites;\n    index ");
    reveal_strlit(";\n    fastcgi_pass unix:");
    reveal_strlit(";\n}\n");
    reveal_strlit("# valet");
    reveal_strlit(" stub: ");
    reveal_strlit("isolated.conf\n# ISOLATED_PHP_VERSION=");
    reveal_strlit("secure.");
    reveal_strlit("proxy.conf");
    reveal_strlit("isolated.conf");
    reveal_strlit("# valet stub: isolated.conf\n");
    reveal_strlit("# ISOLATED_PHP_VERSION=");
    reveal_strlit("\n");
    let lst = seq![
        la,
        version,
        lb,
        p.http_port,
        ";\n    server_name "@,
        p.site,
        ";\n    root "@,
        p.home_path,
        "/sites;\n    index "@,
        p.server_path,
        ";\n    fastcgi_pass unix:"@,
        p.socket_path,
        ";\n}\n"@,
    ];
    assert(s == concat_parts(lst));
    let rest = concat_parts(lst.skip(1));
    assert(s == la + rest);
    // the marker line
    let pre = "# valet"@;
    let mk = " stub: "@;
    let tail = "isolated.conf\n# ISOLATED_PHP_VERSION="@;
    assert(la =~= pre + mk + tail);
    assert(s =~= pre + (mk + (tail + rest)));
    assert((mk + (tail + rest)).subrange(0, 7) =~= mk);
    assert(occurs_at(mk + (tail + rest), mk, 0));
    assert(pre[0] != mk[0]);
    lemma_neq_absent(pre, mk);
    lemma_marker_bigrams();
    lemma_first_occ_concat(pre, mk + (tail + rest), mk);
    assert(first_occ(s, mk) == 7);
    if occurs_at(s, "secure."@, 14) {
        lemma_occ_within_prefix(la, rest, "secure."@, 14);
        assert(la.subrange(14, 21)[0] == la[14]);
        assert(false);
    }
    if occurs_at(s, "proxy.conf"@, 14) {
        lemma_occ_within_prefix(la, rest, "proxy.conf"@, 14);
        assert(la.subrange(14, 24)[0] == la[14]);
        assert(false);
    }
    assert(la.subrange(14, 27) =~= "isolated.conf"@);
    lemma_occ_prefix(la, rest, "isolated.conf"@, 14);
    assert(occurs_at(s, "isolated.conf"@, 14));
    lemma_isolated_version_of_rendered(version, p);
}

/// The version line of a rendered unsecured isolated file recovers the
/// rendered version.
#[verifier::rlimit(60)]
proof fn lemma_isolated_version_of_rendered(version: Seq<char>, p: ParamsSpec)
    requires
        params_ok(p),
        value_ok(version),
        lacks_char(version, '\n'),
    ensures
        spec_isolated_version(spec_rendered_isolated(version, p)) == version,
{
    let s = spec_rendered_isolated(version, p);
    let la = "# valet stub: isolated.conf\n# ISOLATED_PHP_VERSION="@;
    let lb = "\nserver {\n    listen "@;
    reveal_strlit("# valet stub: isolated.conf\n# ISOLATED_PHP_VERSION=");
    reveal_strlit("\nserver {\n    listen ");
    reveal_strlit(";\n    server_name ");
    reveal_strlit(";\n    root ");
    reveal_strlit("/sites;\n    index ");
    reveal_strlit(";\n    fastcgi_pass unix:");
    reveal_strlit(";\n}\n");
    reveal_strlit("# valet stub: isolated.conf\n");
    reveal_strlit("# ISOLATED_PHP_VERSION=");
    reveal_strlit("\n");
    let lst = seq![
        la,
        version,
        lb,
        p.http_port,
        ";\n    server_name "@,
        p.site,
        ";\n    root "@,
        p.home_path,
        "/sites;\n    index "@,
        p.server_path,
        ";\n    fastcgi_pass unix:"@,
        p.socket_path,
        ";\n}\n"@,
    ];
    assert(s == concat_parts(lst));
    let rest = concat_parts(lst.skip(1));
    assert(s == la + rest);
    let la1 = "# valet stub: isolated.conf\n"@;
    let iso = "# ISOLATED_PHP_VERSION="@;
    assert(la =~= la1 + iso);
    assert(s =~= la1 + (iso + rest));
    assert(lacks_char(la1, 'I'));
    lemma_lacks_absent(la1, iso, 2);
    assert((iso + rest).subrange(0, 23) =~= iso);
    assert(occurs_at(iso + rest, iso, 0));
    assert(!has_bigram(iso, la1.last(), (iso + rest).first())) by {
        assert(lacks_char(iso, '\n'));
    }
    lemma_first_occ_concat(la1, iso + rest, iso);
    assert(first_occ(s, iso) == 28);
    let st = 51;
    assert(rest == version + concat_parts(lst.skip(1).skip(1)));
    let restb = concat_parts(lst.skip(1).skip(1));
    assert(s.skip(st) =~= version + restb);
    let nlp = "\n"@;
    lemma_lacks_absent(version, nlp, 0);
    assert(lst.skip(1).skip(1) =~= lst.skip(2));
    assert(lst.skip(2) =~= seq![
        lb,
        p.http_port,
        ";\n    server_name "@,
        p.site,
        ";\n    root "@,
        p.home_path,
        "/sites;\n    index "@,
        p.server_path,
        ";\n    fastcgi_pass unix:"@,
        p.socket_path,
        ";\n}\n"@,
    ]);
    assert(restb == lb + concat_parts(lst.skip(2).skip(1)));
    assert(restb[0] == '\n');
    assert(restb.subrange(0, 1) =~= nlp);
    assert(occurs_at(restb, nlp, 0));
    lemma_first_occ_concat(version, restb, nlp);
    assert(first_occ(s.skip(st), nlp) == version.len() as int);
    assert(s.subrange(st, st + version.len() as int) =~= version);
    assert(spec_isolated_version(s) == version);
}

/// Recovering a rendered secured isolated file yields the isolated kind
/// with the same pinned version.
#[verifier::rlimit(100)]
proof fn lemma_recover_isolated_secure(version: Seq<char>, p: ParamsSpec)
    requires
        params_ok(p),
        value_ok(version),
        lacks_char(version, '\n'),
    ensures
        spec_recover(spec_rendered_isolated_secure(version, p)) == Option::<KindSpec>::Some(
            KindSpec::Isolated(version),
        ),
{
    let s = spec_rendered_isolated_secure(version, p);
    let la = "# valet stub: secure.isolated.conf\n# ISOLATED_PHP_VERSION="@;
    let lb = "\nserver {\n    listen "@;
    let cert = spec_cert_path(p.home_path, p.site);
    let key = spec_key_path(p.home_path, p.site);
    reveal_strlit("# valet stub: secure.isolated.conf\n# ISOLATED_PHP_VERSION=");
    reveal_strlit("\nserver {\n    listen ");
    reveal_strlit(";\n    return 301 https://$host$request_uri;\n}\nserver {\n    listen ");
    reveal_strlit(" ssl;\n    server_name ");
    reveal_strlit(";\n    ssl_certificate ");
    reveal_strlit(";\n    ssl_certificate_key ");
    reveal_strlit(";\n    root ");
    reveal_strlit("/sites;\n    index ");
    reveal_strlit(";\n    fastcgi_pass unix:");
    reveal_strlit(";\n}\n");
    reveal_strlit("# valet");
    reveal_strlit(" stub: ");
    reveal_strlit("secure.isolated.conf\n# ISOLATED_PHP_VERSION=");
    reveal_strlit("secure.");
    reveal_strlit("proxy.conf");
    reveal_strlit("isolated.conf");
    reveal_strlit("# valet stub: secure.isolated.conf\n");
    reveal_strlit("# ISOLATED_PHP_VERSION=");
    reveal_strlit("\n");
    let lst = seq![
        la,
        version,
        lb,
        p.http_port,
        ";\n    return 301 https://$host$request_uri;\n}\nserver {\n    listen "@,
        p.https_port,
        " ssl;\n    server_name "@,
        p.site,
        ";\n    ssl_certificate "@,
        cert,
        ";\n    ssl_certificate_key "@,
        key,
        ";\n    root "@,
        p.home_path,
        "/sites;\n    index "@,
        p.server_path,
        ";\n    fastcgi_pass unix:"@,
        p.socket_path,
        ";\n}\n"@,
    ];
    assert(s == concat_parts(lst));
    let rest = concat_parts(lst.skip(1));
    assert(s == la + rest);
    // the marker line
    let pre = "# valet"@;
    let mk = " stub: "@;
    let tail = "secure.isolated.conf\n# ISOLATED_PHP_VERSION="@;
    assert(la =~= pre + mk + tail);
    assert(s =~= pre + (mk + (tail + rest)));
    assert((mk + (tail + rest)).subrange(0, 7) =~= mk);
    assert(occurs_at(mk + (tail + rest), mk, 0));
    assert(pre[0] != mk[0]);
    lemma_neq_absent(pre, mk);
    lemma_marker_bigrams();
    lemma_first_occ_concat(pre, mk + (tail + rest), mk);
    assert(first_occ(s, mk) == 7);
    assert(la.subrange(14, 21) =~= "secure."@);
    lemma_occ_prefix(la, rest, "secure."@, 14);
    assert(occurs_at(s, "secure."@, 14));
    if occurs_at(s, "proxy.conf"@, 21) {
        lemma_occ_within_prefix(la, rest, "proxy.conf"@, 21);
        assert(la.subrange(21, 31)[0] == la[21]);
        assert(false);
    }
    assert(la.subrange(21, 34) =~= "isolated.conf"@);
    lemma_occ_prefix(la, rest, "isolated.conf"@, 21);
    assert(occurs_at(s, "isolated.conf"@, 21));
    lemma_isolated_secure_version_of_rendered(version, p);
}

/// The version line of a rendered secured isolated file recovers the
/// rendered version.
#[verifier::rlimit(60)]
proof fn lemma_isolated_secure_version_of_rendered(version: Seq<char>, p: ParamsSpec)
    requires
        params_ok(p),
        value_ok(version),
        lacks_char(version, '\n'),
    ensures
        spec_isolated_version(spec_rendered_isolated_secure(version, p)) == version,
{
    let s = spec_rendered_isolated_secure(version, p);
    let la = "# valet stub: secure.isolated.conf\n# ISOLATED_PHP_VERSION="@;
    let lb = "\nserver {\n    listen "@;
    let cert = spec_cert_path(p.home_path, p.site);
    let key = spec_key_path(p.home_path, p.site);
    reveal_strlit("# valet stub: secure.isolated.conf\n# ISOLATED_PHP_VERSION=");
    reveal_strlit("\nserver {\n    listen ");
    reveal_strlit(";\n    return 301 https://$host$request_uri;\n}\nserver {\n    listen ");
    reveal_strlit(" ssl;\n    server_name ");
    reveal_strlit(";\n    ssl_certificate ");
    reveal_strlit(";\n    ssl_certificate_key ");
    reveal_strlit(";\n    root ");
    reveal_strlit("/sites;\n    index ");
    reveal_strlit(";\n    fastcgi_pass unix:");
    reveal_strlit(";\n}\n");
    reveal_strlit("# valet stub: secure.isolated.conf\n");
    reveal_strlit("# ISOLATED_PHP_VERSION=");
    reveal_strlit("\n");
    let lst = seq![
        la,
        version,
        lb,
        p.http_port,
        ";\n    return 301 https://$host$request_uri;\n}\nserver {\n    listen "@,
        p.https_port,
        " ssl;\n    server_name "@,
        p.site,
        ";\n    ssl_certificate "@,
        cert,
        ";\n    ssl_certificate_key "@,
        key,
        ";\n    root "@,
        p.home_path,
        "/sites;\n    index "@,
        p.server_path,
        ";\n    fastcgi_pass unix:"@,
        p.socket_path,
        ";\n}\n"@,
    ];
    assert(s == concat_parts(lst));
    let rest = concat_parts(lst.skip(1));
    assert(s == la + rest);
    let la1 = "# valet stub: secure.isolated.conf\n"@;
    let iso = "# ISOLATED_PHP_VERSION="@;
    assert(la =~= la1 + iso);
    assert(s =~= la1 + (iso + rest));
    assert(lacks_char(la1, 'I'));
    lemma_lacks_absent(la1, iso, 2);
    assert((iso + rest).subrange(0, 23) =~= iso);
    assert(occurs_at(iso + rest, iso, 0));
    assert(!has_bigram(iso, la1.last(), (iso + rest).first())) by {
        assert(lacks_char(iso, '\n'));
    }
    lemma_first_occ_concat(la1, iso + rest, iso);
    assert(first_occ(s, iso) == 35);
    let st = 58;
    assert(rest == version + concat_parts(lst.skip(1).skip(1)));
    let restb = concat_parts(lst.skip(1).skip(1));
    assert(s.skip(st) =~= version + restb);
    let nlp = "\n"@;
    lemma_lacks_absent(version, nlp, 0);
    assert(lst.skip(1).skip(1) =~= lst.skip(2));
    assert(restb == lst.skip(2)[0] + concat_parts(lst.skip(2).skip(1)));
    assert(lst.skip(2)[0] == lb);
    assert(restb[0] == '\n');
    assert(restb.subrange(0, 1) =~= nlp);
    assert(occurs_at(restb, nlp, 0));
    lemma_first_occ_concat(version, restb, nlp);
    assert(first_occ(s.skip(st), nlp) == version.len() as int);
    assert(s.subrange(st, st + version.len() as int) =~= version);
    assert(spec_isolated_version(s) == version);
}

/// The round trip of the engine: recovering the kind from a rendered file
/// gives back exactly the kind, and its parameter, that were rendered.
///
/// Holds for single-line substitution values: the site and home path hold
/// no space, the ports are decimal digits, a proxy target holds no `;`,
/// and an isolated version holds no newline.
pub proof fn lemma_recover_rendered(k: KindSpec, secure: bool, p: ParamsSpec)
    requires
        params_ok(p),
        kind_ok(k),
        lacks_char(p.site, ' '),
        lacks_char(p.home_path, ' '),
        all_digits(p.http_port),
        all_digits(p.https_port),
        match k {
            KindSpec::Plain => true,
            KindSpec::Proxy(t) => lacks_char(t, ';'),
            KindSpec::Isolated(v) => lacks_char(v, '\n'),
        },
    ensures
        spec_recover(spec_rendered(k, secure, p)) == Option::<KindSpec>::Some(k),
{
    lemma_digits_lacks(p.http_port, ' ');
    lemma_digits_lacks(p.https_port, ' ');
    match k {
        KindSpec::Plain => {
            if secure {
                lemma_recover_plain_secure(p);
            } else {
                lemma_recover_plain(p);
            }
        },
        KindSpec::Proxy(t) => {
            if secure {
                lemma_recover_proxy_secure(t, p);
            } else {
                lemma_recover_proxy_plain(t, p);
            }
        },
        KindSpec::Isolated(v) => {
            if secure {
                lemma_recover_isolated_secure(v, p);
            } else {
                lemma_recover_isolated(v, p);
            }
        },
    }
}


} // verus!
