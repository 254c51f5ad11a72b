//! The URL model: the parts of a parsed URL that the engine reads, their
//! serialization, and the canonicalization that decides origin equality and
//! cache naming.

use vstd::prelude::*;
use vstd::string::StrSliceExecFns;
use vstd::string::StringExecFns;

use crate::errors::Error;
use crate::strings::ascii_lower;
use crate::strings::dec_digits;
use crate::strings::has_prefix;
use crate::strings::has_suffix;
use crate::strings::is_prefix_of;
use crate::strings::is_suffix_of;
use crate::strings::lemma_lower_idempotent;
use crate::strings::lower_seq;
use crate::strings::push_char;
use crate::strings::str_eq;
use crate::strings::substr;
use crate::strings::u64_to_string;

verus! {

/// The parts of a parsed URL, each exactly as the parser serializes it
/// (hosts already lower-cased and encoded, paths percent-encoded).
#[derive(Debug)]
pub struct Url {
    pub scheme: String,
    pub username: String,
    pub password: Option<String>,
    pub host: Option<String>,
    pub port: Option<u16>,
    pub path: String,
    pub query: Option<String>,
    pub fragment: Option<String>,
    pub has_authority: bool,
    pub cannot_be_a_base: bool,
}

/// The mathematical value of a [`Url`].
#[verifier::ext_equal]
pub struct UrlV {
    pub scheme: Seq<char>,
    pub username: Seq<char>,
    pub password: Option<Seq<char>>,
    pub host: Option<Seq<char>>,
    pub port: Option<u16>,
    pub path: Seq<char>,
    pub query: Option<Seq<char>>,
    pub fragment: Option<Seq<char>>,
    pub has_authority: bool,
    pub cannot_be_a_base: bool,
}

pub open spec fn opt_seq(o: Option<String>) -> Option<Seq<char>> {
    match o {
        Option::None => Option::None,
        Option::Some(s) => Option::Some(s@),
    }
}

impl View for Url {
    type V = UrlV;

    open spec fn view(&self) -> UrlV {
        UrlV {
            scheme: self.scheme@,
            username: self.username@,
            password: opt_seq(self.password),
            host: opt_seq(self.host),
            port: self.port,
            path: self.path@,
            query: opt_seq(self.query),
            fragment: opt_seq(self.fragment),
            has_authority: self.has_authority,
            cannot_be_a_base: self.cannot_be_a_base,
        }
    }
}

pub open spec fn opt_url_view(r: Option<Url>) -> Option<UrlV> {
    match r {
        Option::None => Option::None,
        Option::Some(u) => Option::Some(u@),
    }
}

/// What parsing a URL string yields, if it parses at all.
pub uninterp spec fn url_parse_spec(s: Seq<char>) -> Option<UrlV>;

/// Relies on `url::Url::parse` and its accessors: splits a URL string into
/// scheme, user information, host, port, path, query and fragment, each
/// exactly as that crate serializes it.
#[verifier::external_body]
fn parse_url_raw(s: &str) -> (r: Option<Url>)
    ensures
        opt_url_view(r) == url_parse_spec(s@),
{
    match url::Url::parse(s) {
        Err(_) => None,
        Ok(u) => Some(Url {
            scheme: u.scheme().to_string(),
            username: u.username().to_string(),
            password: u.password().map(|p| p.to_string()),
            host: u.host_str().map(|h| h.to_string()),
            port: u.port(),
            path: u.path().to_string(),
            query: u.query().map(|q| q.to_string()),
            fragment: u.fragment().map(|f| f.to_string()),
            has_authority: u.has_authority(),
            cannot_be_a_base: u.cannot_be_a_base(),
        }),
    }
}

/// The key-value pairs encoded in a query string, in order.
pub uninterp spec fn query_pairs_spec(q: Seq<char>) -> Seq<(Seq<char>, Seq<char>)>;

pub open spec fn pairs_view(v: Seq<(String, String)>) -> Seq<(Seq<char>, Seq<char>)> {
    Seq::new(v.len(), |i: int| (v[i].0@, v[i].1@))
}

/// Relies on `url::form_urlencoded::parse`: decodes a query string into its
/// key-value pairs, a function of the query text alone.
#[verifier::external_body]
fn query_pairs_raw(q: &str) -> (r: Vec<(String, String)>)
    ensures
        pairs_view(r@) == query_pairs_spec(q@),
{
    url::form_urlencoded::parse(q.as_bytes()).into_owned().collect()
}

impl Url {
    /// Parses a URL string into its parts.
    pub fn parse(s: &str) -> (r: Result<Url, Error>)
        ensures
            match r {
                Ok(u) => url_parse_spec(s@) == Option::Some(u@),
                Err(e) => url_parse_spec(s@) is None && e == Error::UnsupportedUrlShape,
            },
    {
        match parse_url_raw(s) {
            Some(u) => Ok(u),
            None => Err(Error::UnsupportedUrlShape),
        }
    }

    /// The key-value pairs of this URL's query string, in order; empty when
    /// there is no query.
    pub fn query_pairs(&self) -> (r: Vec<(String, String)>)
        ensures
            pairs_view(r@) == query_pairs_of(self@),
    {
        match &self.query {
            Some(q) => query_pairs_raw(q.as_str()),
            None => {
                let r: Vec<(String, String)> = Vec::new();
                proof {
                    assert(pairs_view(r@) =~= Seq::<(Seq<char>, Seq<char>)>::empty());
                }
                r
            },
        }
    }

    /// A deep copy.
    pub fn duplicate(&self) -> (r: Url)
        ensures
            r@ == self@,
    {
        let r = Url {
            scheme: self.scheme.clone(),
            username: self.username.clone(),
            password: clone_opt(&self.password),
            host: clone_opt(&self.host),
            port: self.port,
            path: self.path.clone(),
            query: clone_opt(&self.query),
            fragment: clone_opt(&self.fragment),
            has_authority: self.has_authority,
            cannot_be_a_base: self.cannot_be_a_base,
        };
        proof {
            assert(r@ =~= self@);
        }
        r
    }

    /// Whether the two URLs hold the same parts.
    pub fn equals(&self, other: &Url) -> (r: bool)
        ensures
            r == (self@ == other@),
    {
        let r = str_eq(self.scheme.as_str(), other.scheme.as_str()) && str_eq(
            self.username.as_str(),
            other.username.as_str(),
        ) && opt_str_eq(&self.password, &other.password) && opt_str_eq(&self.host, &other.host)
            && opt_u16_eq(&self.port, &other.port) && str_eq(self.path.as_str(), other.path.as_str())
            && opt_str_eq(&self.query, &other.query) && opt_str_eq(&self.fragment, &other.fragment)
            && self.has_authority == other.has_authority && self.cannot_be_a_base
            == other.cannot_be_a_base;
        proof {
            if r {
                assert(self@ =~= other@);
            }
        }
        r
    }
}

/// The pairs of a URL's query, empty when the URL has none.
pub open spec fn query_pairs_of(u: UrlV) -> Seq<(Seq<char>, Seq<char>)> {
    match u.query {
        Option::None => Seq::<(Seq<char>, Seq<char>)>::empty(),
        Option::Some(q) => query_pairs_spec(q),
    }
}

fn clone_opt(o: &Option<String>) -> (r: Option<String>)
    ensures
        opt_seq(r) == opt_seq(*o),
{
    match o {
        Some(s) => Some(s.clone()),
        None => None,
    }
}

fn opt_str_eq(a: &Option<String>, b: &Option<String>) -> (r: bool)
    ensures
        r == (opt_seq(*a) == opt_seq(*b)),
{
    match (a, b) {
        (Some(x), Some(y)) => str_eq(x.as_str(), y.as_str()),
        (None, None) => true,
        _ => false,
    }
}

fn opt_u16_eq(a: &Option<u16>, b: &Option<u16>) -> (r: bool)
    ensures
        r == (*a == *b),
{
    match (a, b) {
        (Some(x), Some(y)) => *x == *y,
        (None, None) => true,
        _ => false,
    }
}

/// The user-information block of the serialization, with its trailing `@`,
/// or nothing when no user information is present.
pub open spec fn userinfo_str(u: UrlV) -> Seq<char> {
    if u.username.len() > 0 || u.password is Some {
        u.username + (match u.password {
            Option::None => Seq::<char>::empty(),
            Option::Some(p) => seq![':'] + p,
        }) + seq!['@']
    } else {
        Seq::<char>::empty()
    }
}

/// The `//user@host:port` block of the serialization, when present.
pub open spec fn authority_str(u: UrlV) -> Seq<char> {
    if u.has_authority {
        seq!['/', '/'] + userinfo_str(u) + (match u.host {
            Option::None => Seq::<char>::empty(),
            Option::Some(h) => h,
        }) + (match u.port {
            Option::None => Seq::<char>::empty(),
            Option::Some(p) => seq![':'] + dec_digits(p as nat),
        })
    } else {
        Seq::<char>::empty()
    }
}

/// The serialization of a URL value:
/// `scheme:[//[user[:pass]@]host[:port]]path[?query][#fragment]`.
pub open spec fn url_str(u: UrlV) -> Seq<char> {
    u.scheme + seq![':'] + authority_str(u) + u.path + (match u.query {
        Option::None => Seq::<char>::empty(),
        Option::Some(q) => seq!['?'] + q,
    }) + (match u.fragment {
        Option::None => Seq::<char>::empty(),
        Option::Some(f) => seq!['#'] + f,
    })
}

/// Renders the serialization of a URL.
pub fn url_to_string(u: &Url) -> (r: String)
    ensures
        r@ == url_str(u@),
{
    let mut out = u.scheme.clone();
    push_char(&mut out, ':');
    if u.has_authority {
        push_char(&mut out, '/');
        push_char(&mut out, '/');
        let has_userinfo = match &u.password {
            Some(_) => true,
            None => u.username.as_str().unicode_len() > 0,
        };
        if has_userinfo {
            out.append(u.username.as_str());
            if let Some(p) = &u.password {
                push_char(&mut out, ':');
                out.append(p.as_str());
            }
            push_char(&mut out, '@');
        }
        if let Some(h) = &u.host {
            out.append(h.as_str());
        }
        if let Some(p) = &u.port {
            push_char(&mut out, ':');
            out.append(u64_to_string(*p as u64).as_str());
        }
        proof {
            assert(out@ =~= u@.scheme + seq![':'] + authority_str(u@));
        }
    } else {
        proof {
            assert(out@ =~= u@.scheme + seq![':'] + authority_str(u@));
        }
    }
    out.append(u.path.as_str());
    if let Some(q) = &u.query {
        push_char(&mut out, '?');
        out.append(q.as_str());
    }
    if let Some(f) = &u.fragment {
        push_char(&mut out, '#');
        out.append(f.as_str());
    }
    proof {
        assert(out@ =~= url_str(u@));
    }
    out
}

/// A sanitized URL, stable under rendering, used for origin equality and
/// for deriving the name of the on-disk repository cache.
#[derive(Debug)]
pub struct CanonicalUrl(pub Url);

impl View for CanonicalUrl {
    type V = UrlV;

    open spec fn view(&self) -> UrlV {
        self.0@
    }
}

/// One trailing `/` removed from the path, if present.
pub open spec fn strip_slash(u: UrlV) -> UrlV {
    if u.path.len() > 0 && u.path.last() == '/' {
        UrlV { path: u.path.drop_last(), ..u }
    } else {
        u
    }
}

/// Whether the host is `github.com`, compared case-insensitively: the
/// parser lower-cases hosts of the common schemes already, but not of
/// every scheme a repository URL can carry.
pub open spec fn is_github_host(u: UrlV) -> bool {
    match u.host {
        Option::Some(h) => lower_seq(h) == "github.com"@,
        Option::None => false,
    }
}

/// The scheme forced to `https` and the path lower-cased, applied when the
/// host is `github.com`.
pub open spec fn github_rewrite(u: UrlV) -> UrlV {
    if is_github_host(u) {
        UrlV { scheme: "https"@, path: lower_seq(u.path), ..u }
    } else {
        u
    }
}

/// A trailing `.git` removed from the path, if present.
pub open spec fn chop_git(u: UrlV) -> UrlV {
    if is_suffix_of(".git"@, u.path) {
        UrlV { path: u.path.subrange(0, u.path.len() - ".git"@.len()), ..u }
    } else {
        u
    }
}

/// A leading `sparse+` removed from the scheme, if present.
pub open spec fn strip_sparse(u: UrlV) -> UrlV {
    if is_prefix_of("sparse+"@, u.scheme) {
        UrlV { scheme: u.scheme.skip("sparse+"@.len() as int), ..u }
    } else {
        u
    }
}

/// The canonical form of a URL: hierarchical URLs only, one trailing slash
/// stripped, `github.com` URLs forced to lower-case `https`, a `.git`
/// suffix chopped, and a `sparse+` scheme prefix stripped, in that order.
pub open spec fn canon_spec(u: UrlV) -> Option<UrlV> {
    if u.cannot_be_a_base {
        Option::None
    } else {
        Option::Some(strip_sparse(chop_git(github_rewrite(strip_slash(u)))))
    }
}

impl CanonicalUrl {
    /// Canonicalizes a URL; URLs without hierarchical structure are refused.
    pub fn new(url: &Url) -> (r: Result<CanonicalUrl, Error>)
        ensures
            match r {
                Ok(c) => canon_spec(url@) == Option::Some(c@),
                Err(e) => url@.cannot_be_a_base && e == Error::UnsupportedUrlShape,
            },
    {
        if url.cannot_be_a_base {
            return Err(Error::UnsupportedUrlShape);
        }
        let mut u = url.duplicate();

        let plen = u.path.as_str().unicode_len();
        if plen > 0 && u.path.as_str().get_char(plen - 1) == '/' {
            let np = substr(u.path.as_str(), 0, plen - 1);
            proof {
                assert(np@ =~= url@.path.drop_last());
            }
            u.path = np;
        }
        proof {
            assert(u@ =~= strip_slash(url@));
        }
        let ghost u1 = u@;

        let is_github = match &u.host {
            Some(h) => str_eq(ascii_lower(h.as_str()).as_str(), "github.com"),
            None => false,
        };
        if is_github {
            u.scheme = "https".to_owned();
            let lowered = ascii_lower(u.path.as_str());
            u.path = lowered;
        }
        proof {
            assert(u@ =~= github_rewrite(u1));
        }
        let ghost u2 = u@;

        if has_suffix(u.path.as_str(), ".git") {
            let pl = u.path.as_str().unicode_len();
            let gl = ".git".unicode_len();
            let np = substr(u.path.as_str(), 0, pl - gl);
            u.path = np;
        }
        proof {
            assert(u@ =~= chop_git(u2));
        }
        let ghost u3 = u@;

        if has_prefix(u.scheme.as_str(), "sparse+") {
            let sl = "sparse+".unicode_len();
            let slen = u.scheme.as_str().unicode_len();
            let ns = substr(u.scheme.as_str(), sl, slen);
            proof {
                assert(ns@ =~= u3.scheme.skip("sparse+"@.len() as int));
            }
            u.scheme = ns;
        }
        proof {
            assert(u@ =~= strip_sparse(u3));
        }
        Ok(CanonicalUrl(u))
    }

    /// Renders the serialization of the canonical URL.
    pub fn to_text(&self) -> (r: String)
        ensures
            r@ == url_str(self@),
    {
        url_to_string(&self.0)
    }
}

/// Canonicalization is idempotent. The inputs left out are those the
/// algorithm itself does not fix: a canonical form that still ends in `/`
/// or `.git` (from a doubled suffix in the original), or whose scheme still
/// starts with `sparse+` (from a doubled prefix).
pub proof fn lemma_canonicalize_idempotent(u: UrlV, c: UrlV)
    requires
        canon_spec(u) == Option::Some(c),
        c.path.len() == 0 || c.path.last() != '/',
        !is_suffix_of(".git"@, c.path),
        !is_prefix_of("sparse+"@, c.scheme),
    ensures
        canon_spec(c) == Option::Some(c),
{
    let u1 = strip_slash(u);
    let u2 = github_rewrite(u1);
    let u3 = chop_git(u2);
    assert(c == strip_sparse(u3));
    assert(!c.cannot_be_a_base);
    assert(strip_slash(c) == c);
    let c2 = github_rewrite(c);
    if is_github_host(c) {
        // The first pass lower-cased the path and forced the scheme before
        // the suffix chop, which preserves both properties.
        assert(u2.scheme == "https"@);
        assert(u2.path == lower_seq(u1.path));
        if is_suffix_of(".git"@, u2.path) {
            let k = u2.path.len() - ".git"@.len();
            assert(u3.path =~= lower_seq(u1.path.subrange(0, k))) by {
                assert(u3.path == lower_seq(u1.path).subrange(0, k));
                assert(lower_seq(u1.path).subrange(0, k) =~= lower_seq(u1.path.subrange(0, k)));
            }
        }
        assert(exists|p: Seq<char>| u3.path == lower_seq(p));
        let p0 = choose|p: Seq<char>| u3.path == lower_seq(p);
        lemma_lower_idempotent(p0);
        assert(lower_seq(u3.path) == u3.path);
        // The `sparse+` prefix cannot survive on `https`: the lengths differ.
        assert(u3.scheme == "https"@);
        reveal_strlit("https");
        reveal_strlit("sparse+");
        assert("https"@.len() == 5 && "sparse+"@.len() == 7);
        assert(!is_prefix_of("sparse+"@, u3.scheme));
        assert(c == u3);
        assert(c.scheme == "https"@);
        assert(c2 =~= c);
    } else {
        assert(c2 == c);
    }
    assert(chop_git(c2) == c2);
    assert(strip_sparse(c2) == c2);
    assert(canon_spec(c) == Option::Some(c));
}

} // verus!
