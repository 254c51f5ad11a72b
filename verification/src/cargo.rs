//! The source identifier model: where an installed package came from, parsed
//! from the install-state file's textual encoding
//! `<name> <version> (<kind>+<url>)`.

use vstd::prelude::*;
use vstd::string::StrSliceExecFns;
use vstd::string::StringExecFns;

use crate::errors::Error;
use crate::strings::find_char;
use crate::strings::lex_lt;
use crate::strings::str_eq;
use crate::strings::str_lt;
use crate::strings::substr;
use crate::strings::trim;
use crate::strings::trim_spec;
use crate::urls::canon_spec;
use crate::urls::opt_seq;
use crate::urls::pairs_view;
use crate::urls::query_pairs_of;
use crate::urls::url_parse_spec;
use crate::urls::url_str;
use crate::urls::CanonicalUrl;
use crate::urls::Url;
use crate::urls::UrlV;
use crate::version::idx_of;
use crate::version::lemma_idx_of_exact;
use crate::version::lemma_idx_of_none;
use crate::version::lemma_version_render_parse;
use crate::version::parse_version_spec;
use crate::version::ver_str;
use crate::version::ver_total_lt;
use crate::version::Version;
use crate::version::VersionV;

verus! {

/// How a Git source pins its code.
#[derive(Debug)]
pub enum GitReference {
    /// A named tag.
    Tag(String),
    /// A named branch.
    Branch(String),
    /// A specific revision.
    Rev(String),
    /// The remote's default branch, the reference named `HEAD`.
    DefaultBranch,
}

pub enum GitReferenceV {
    Tag(Seq<char>),
    Branch(Seq<char>),
    Rev(Seq<char>),
    DefaultBranch,
}

impl View for GitReference {
    type V = GitReferenceV;

    open spec fn view(&self) -> GitReferenceV {
        match self {
            GitReference::Tag(s) => GitReferenceV::Tag(s@),
            GitReference::Branch(s) => GitReferenceV::Branch(s@),
            GitReference::Rev(s) => GitReferenceV::Rev(s@),
            GitReference::DefaultBranch => GitReferenceV::DefaultBranch,
        }
    }
}

impl GitReference {
    /// A deep copy.
    pub fn duplicate(&self) -> (r: GitReference)
        ensures
            r@ == self@,
    {
        match self {
            GitReference::Tag(s) => GitReference::Tag(s.clone()),
            GitReference::Branch(s) => GitReference::Branch(s.clone()),
            GitReference::Rev(s) => GitReference::Rev(s.clone()),
            GitReference::DefaultBranch => GitReference::DefaultBranch,
        }
    }
}

/// The kind of a package source.
#[derive(Debug)]
pub enum SourceKind {
    /// A git repository.
    Git(GitReference),
    /// A local path.
    Path,
    /// A remote registry.
    Registry,
}

pub enum SourceKindV {
    Git(GitReferenceV),
    Path,
    Registry,
}

impl View for SourceKind {
    type V = SourceKindV;

    open spec fn view(&self) -> SourceKindV {
        match self {
            SourceKind::Git(r) => SourceKindV::Git(r@),
            SourceKind::Path => SourceKindV::Path,
            SourceKind::Registry => SourceKindV::Registry,
        }
    }
}

impl SourceKind {
    /// A deep copy.
    pub fn duplicate(&self) -> (r: SourceKind)
        ensures
            r@ == self@,
    {
        match self {
            SourceKind::Git(r) => SourceKind::Git(r.duplicate()),
            SourceKind::Path => SourceKind::Path,
            SourceKind::Registry => SourceKind::Registry,
        }
    }
}

/// Unique identifier for a source of packages.
#[derive(Debug)]
pub struct SourceId {
    /// The source URL, as recorded (for Git sources: query and fragment
    /// stripped).
    pub url: Url,
    /// The canonical form of `url`, always recomputed from it.
    pub canonical_url: CanonicalUrl,
    /// The source kind.
    pub kind: SourceKind,
    /// An exact resolved point: a commit id for Git, a lock marker for
    /// registries.
    pub precise: Option<String>,
    /// Name of the registry for alternate registries, when known.
    pub name: Option<String>,
}

#[verifier::ext_equal]
pub struct SourceIdV {
    pub url: UrlV,
    pub canonical_url: UrlV,
    pub kind: SourceKindV,
    pub precise: Option<Seq<char>>,
    pub name: Option<Seq<char>>,
}

impl View for SourceId {
    type V = SourceIdV;

    open spec fn view(&self) -> SourceIdV {
        SourceIdV {
            url: self.url@,
            canonical_url: self.canonical_url@,
            kind: self.kind@,
            precise: opt_seq(self.precise),
            name: opt_seq(self.name),
        }
    }
}

impl SourceIdV {
    /// The canonical URL is exactly the canonicalization of the stored URL.
    pub open spec fn wf(self) -> bool {
        canon_spec(self.url) == Option::Some(self.canonical_url)
    }
}

impl SourceId {
    /// A validating constructor: the canonical URL is computed here and
    /// nowhere else.
    pub fn new(kind: SourceKind, url: Url, name: Option<String>) -> (r: Result<SourceId, Error>)
        ensures
            match r {
                Ok(s) => s@ == (SourceIdV {
                    url: url@,
                    canonical_url: canon_spec(url@)->Some_0,
                    kind: kind@,
                    precise: Option::None,
                    name: opt_seq(name),
                }) && s@.wf(),
                Err(e) => canon_spec(url@) is None && e == Error::UnsupportedUrlShape,
            },
    {
        match CanonicalUrl::new(&url) {
            Ok(c) => Ok(SourceId { kind, canonical_url: c, url, precise: None, name }),
            Err(e) => Err(e),
        }
    }

    /// A Git source at the given URL and reference.
    pub fn for_git(url: Url, reference: GitReference) -> (r: Result<SourceId, Error>)
        ensures
            match r {
                Ok(s) => s@ == (SourceIdV {
                    url: url@,
                    canonical_url: canon_spec(url@)->Some_0,
                    kind: SourceKindV::Git(reference@),
                    precise: Option::None,
                    name: Option::None,
                }) && s@.wf(),
                Err(e) => canon_spec(url@) is None && e == Error::UnsupportedUrlShape,
            },
    {
        SourceId::new(SourceKind::Git(reference), url, None)
    }

    /// The same source, pinned at `v`.
    pub fn with_precise(self, v: Option<String>) -> (r: SourceId)
        ensures
            r@ == (SourceIdV { precise: opt_seq(v), ..self@ }),
    {
        SourceId { precise: v, ..self }
    }
}

/// The reference that a list of query pairs selects, last match winning:
/// `branch`/`ref` name a branch, `rev` a revision, `tag` a tag.
pub open spec fn git_ref_from_pairs(
    pairs: Seq<(Seq<char>, Seq<char>)>,
    acc: GitReferenceV,
) -> GitReferenceV
    decreases pairs.len(),
{
    if pairs.len() == 0 {
        acc
    } else {
        let k = pairs[0].0;
        let v = pairs[0].1;
        let acc2 = if k == "branch"@ || k == "ref"@ {
            GitReferenceV::Branch(v)
        } else if k == "rev"@ {
            GitReferenceV::Rev(v)
        } else if k == "tag"@ {
            GitReferenceV::Tag(v)
        } else {
            acc
        };
        git_ref_from_pairs(pairs.drop_first(), acc2)
    }
}

fn git_ref_exec(pairs: &Vec<(String, String)>) -> (r: GitReference)
    ensures
        r@ == git_ref_from_pairs(pairs_view(pairs@), GitReferenceV::DefaultBranch),
{
    let ghost pv = pairs_view(pairs@);
    let mut acc = GitReference::DefaultBranch;
    proof {
        assert(pv.skip(0) =~= pv);
    }
    let mut i: usize = 0;
    while i < pairs.len()
        invariant
            0 <= i <= pairs.len(),
            pv == pairs_view(pairs@),
            pv.len() == pairs.len(),
            git_ref_from_pairs(pv, GitReferenceV::DefaultBranch) == git_ref_from_pairs(
                pv.skip(i as int),
                acc@,
            ),
        decreases pairs.len() - i,
    {
        proof {
            assert(pv.skip(i as int).len() == pv.len() - i);
            assert(pv.skip(i as int)[0] == pv[i as int]);
            assert(pv[i as int] == (pairs@[i as int].0@, pairs@[i as int].1@));
            assert(pv.skip(i as int).drop_first() =~= pv.skip(i + 1));
        }
        let k = &pairs[i].0;
        if str_eq(k.as_str(), "branch") || str_eq(k.as_str(), "ref") {
            acc = GitReference::Branch(pairs[i].1.clone());
        } else if str_eq(k.as_str(), "rev") {
            acc = GitReference::Rev(pairs[i].1.clone());
        } else if str_eq(k.as_str(), "tag") {
            acc = GitReference::Tag(pairs[i].1.clone());
        }
        i = i + 1;
    }
    proof {
        assert(pv.skip(pairs.len() as int).len() == 0);
    }
    acc
}

/// What decoding a `<kind>+<url>` source string yields.
pub open spec fn parse_source_spec(s: Seq<char>) -> Result<SourceIdV, Error> {
    let ik = idx_of(s, '+');
    if ik == -1 {
        Result::Err(Error::MalformedIdentifier)
    } else {
        let kind = s.subrange(0, ik);
        let rest = s.subrange(ik + 1, s.len() as int);
        if kind == "git"@ {
            parse_git_source_spec(rest)
        } else if kind == "registry"@ {
            parse_registry_source_spec(rest)
        } else if kind == "sparse"@ {
            // A sparse registry URL keeps its `sparse+` scheme prefix: the
            // whole string is the URL.
            parse_registry_source_spec(s)
        } else if kind == "path"@ {
            match url_parse_spec(rest) {
                Option::None => Result::Err(Error::UnsupportedUrlShape),
                Option::Some(u) => match canon_spec(u) {
                    Option::None => Result::Err(Error::UnsupportedUrlShape),
                    Option::Some(c) => Result::Ok(
                        SourceIdV {
                            url: u,
                            canonical_url: c,
                            kind: SourceKindV::Path,
                            precise: Option::None,
                            name: Option::None,
                        },
                    ),
                },
            }
        } else {
            Result::Err(Error::UnsupportedSourceKind)
        }
    }
}

/// A Git source: the reference comes from the query pairs, the pinned
/// commit from the fragment, and both are stripped from the stored URL.
pub open spec fn parse_git_source_spec(rest: Seq<char>) -> Result<SourceIdV, Error> {
    match url_parse_spec(rest) {
        Option::None => Result::Err(Error::UnsupportedUrlShape),
        Option::Some(u) => {
            let reference = git_ref_from_pairs(query_pairs_of(u), GitReferenceV::DefaultBranch);
            let stripped = UrlV { query: Option::None, fragment: Option::None, ..u };
            match canon_spec(stripped) {
                Option::None => Result::Err(Error::UnsupportedUrlShape),
                Option::Some(c) => Result::Ok(
                    SourceIdV {
                        url: stripped,
                        canonical_url: c,
                        kind: SourceKindV::Git(reference),
                        precise: u.fragment,
                        name: Option::None,
                    },
                ),
            }
        },
    }
}

/// A registry source: always pinned at the `locked` marker.
pub open spec fn parse_registry_source_spec(url_text: Seq<char>) -> Result<SourceIdV, Error> {
    match url_parse_spec(url_text) {
        Option::None => Result::Err(Error::UnsupportedUrlShape),
        Option::Some(u) => match canon_spec(u) {
            Option::None => Result::Err(Error::UnsupportedUrlShape),
            Option::Some(c) => Result::Ok(
                SourceIdV {
                    url: u,
                    canonical_url: c,
                    kind: SourceKindV::Registry,
                    precise: Option::Some("locked"@),
                    name: Option::None,
                },
            ),
        },
    }
}

impl SourceId {
    /// Decodes a `<kind>+<url>` source string, as it appears inside the
    /// parentheses of a package identifier.
    pub fn from_url(s: &str) -> (r: Result<SourceId, Error>)
        ensures
            match r {
                Ok(sid) => parse_source_spec(s@) == Result::<SourceIdV, Error>::Ok(sid@)
                    && sid@.wf(),
                Err(e) => parse_source_spec(s@) == Result::<SourceIdV, Error>::Err(e),
            },
    {
        let n = s.unicode_len();
        let ik = match find_char(s, '+', 0) {
            Some(i) => {
                proof {
                    lemma_idx_of_exact(s@, '+', i as int);
                }
                i
            },
            None => {
                proof {
                    lemma_idx_of_none(s@, '+');
                }
                return Err(Error::MalformedIdentifier);
            },
        };
        let kind = substr(s, 0, ik);
        let rest = substr(s, ik + 1, n);
        if str_eq(kind.as_str(), "git") {
            let u = match Url::parse(rest.as_str()) {
                Ok(u) => u,
                Err(e) => {
                    return Err(e);
                },
            };
            let pairs = u.query_pairs();
            let reference = git_ref_exec(&pairs);
            let precise = match &u.fragment {
                Some(f) => Some(f.clone()),
                None => None,
            };
            let mut stripped = u;
            stripped.query = None;
            stripped.fragment = None;
            let sid = match SourceId::for_git(stripped, reference) {
                Ok(sid) => sid,
                Err(e) => {
                    return Err(e);
                },
            };
            let r = sid.with_precise(precise);
            proof {
                assert(parse_source_spec(s@) == Result::<SourceIdV, Error>::Ok(r@));
            }
            Ok(r)
        } else if str_eq(kind.as_str(), "registry") {
            Self::registry_from(rest.as_str())
        } else if str_eq(kind.as_str(), "sparse") {
            Self::registry_from(s)
        } else if str_eq(kind.as_str(), "path") {
            let u = match Url::parse(rest.as_str()) {
                Ok(u) => u,
                Err(e) => {
                    return Err(e);
                },
            };
            match SourceId::new(SourceKind::Path, u, None) {
                Ok(sid) => Ok(sid),
                Err(e) => Err(e),
            }
        } else {
            Err(Error::UnsupportedSourceKind)
        }
    }

    /// A registry source from its URL text, pinned at the `locked` marker.
    fn registry_from(url_text: &str) -> (r: Result<SourceId, Error>)
        ensures
            match r {
                Ok(sid) => parse_registry_source_spec(url_text@) == Result::<
                    SourceIdV,
                    Error,
                >::Ok(sid@) && sid@.wf(),
                Err(e) => parse_registry_source_spec(url_text@) == Result::<
                    SourceIdV,
                    Error,
                >::Err(e),
            },
    {
        let u = match Url::parse(url_text) {
            Ok(u) => u,
            Err(e) => {
                return Err(e);
            },
        };
        match SourceId::new(SourceKind::Registry, u, None) {
            Ok(sid) => Ok(sid.with_precise(Some("locked".to_owned()))),
            Err(e) => Err(e),
        }
    }
}

/// Identifier for a specific version of a package in a specific source.
#[derive(Debug)]
pub struct PackageId {
    /// Identifier of the package, from its manifest.
    pub name: String,
    /// Installed SemVer version.
    pub version: Version,
    /// Where this package came from.
    pub source_id: SourceId,
}

#[verifier::ext_equal]
pub struct PackageIdV {
    pub name: Seq<char>,
    pub version: VersionV,
    pub source_id: SourceIdV,
}

impl View for PackageId {
    type V = PackageIdV;

    open spec fn view(&self) -> PackageIdV {
        PackageIdV { name: self.name@, version: self.version@, source_id: self.source_id@ }
    }
}

impl PackageIdV {
    pub open spec fn wf(self) -> bool {
        self.name.len() > 0 && self.version.wf() && self.source_id.wf()
    }
}

/// What parsing one install-state identifier yields: the first two spaces
/// split name, version and the parenthesized source.
pub open spec fn parse_package_spec(s: Seq<char>) -> Result<PackageIdV, Error> {
    let i1 = idx_of(s, ' ');
    if i1 == -1 {
        Result::Err(Error::MalformedIdentifier)
    } else {
        let name = s.subrange(0, i1);
        let rest = s.subrange(i1 + 1, s.len() as int);
        let i2 = idx_of(rest, ' ');
        if i2 == -1 {
            Result::Err(Error::MalformedIdentifier)
        } else {
            let ver_seg = rest.subrange(0, i2);
            let src_seg = rest.subrange(i2 + 1, rest.len() as int);
            if name.len() == 0 {
                Result::Err(Error::MalformedIdentifier)
            } else {
                match parse_version_spec(trim_spec(ver_seg)) {
                    Option::None => Result::Err(Error::MalformedIdentifier),
                    Option::Some(v) => {
                        if src_seg.len() >= 2 && src_seg[0] == '(' && src_seg.last() == ')' {
                            let inner = src_seg.subrange(1, src_seg.len() - 1);
                            match parse_source_spec(inner) {
                                Result::Err(e) => Result::Err(e),
                                Result::Ok(sid) => Result::Ok(
                                    PackageIdV { name, version: v, source_id: sid },
                                ),
                            }
                        } else {
                            Result::Err(Error::MalformedIdentifier)
                        }
                    },
                }
            }
        }
    }
}

impl PackageId {
    /// Parses one install-state identifier of the shape
    /// `<name> <version> (<kind>+<url>)`.
    pub fn parse(s: &str) -> (r: Result<PackageId, Error>)
        ensures
            match r {
                Ok(p) => parse_package_spec(s@) == Result::<PackageIdV, Error>::Ok(p@) && p@.wf(),
                Err(e) => parse_package_spec(s@) == Result::<PackageIdV, Error>::Err(e),
            },
    {
        let n = s.unicode_len();
        let i1 = match find_char(s, ' ', 0) {
            Some(i) => {
                proof {
                    lemma_idx_of_exact(s@, ' ', i as int);
                }
                i
            },
            None => {
                proof {
                    lemma_idx_of_none(s@, ' ');
                }
                return Err(Error::MalformedIdentifier);
            },
        };
        let name = substr(s, 0, i1);
        let rest = substr(s, i1 + 1, n);
        let rn = rest.as_str().unicode_len();
        let i2 = match find_char(rest.as_str(), ' ', 0) {
            Some(i) => {
                proof {
                    lemma_idx_of_exact(rest@, ' ', i as int);
                }
                i
            },
            None => {
                proof {
                    lemma_idx_of_none(rest@, ' ');
                }
                return Err(Error::MalformedIdentifier);
            },
        };
        let ver_seg = substr(rest.as_str(), 0, i2);
        let src_seg = substr(rest.as_str(), i2 + 1, rn);
        if name.as_str().unicode_len() == 0 {
            return Err(Error::MalformedIdentifier);
        }
        let trimmed = trim(ver_seg.as_str());
        let version = match Version::parse(trimmed.as_str()) {
            Some(v) => v,
            None => {
                return Err(Error::MalformedIdentifier);
            },
        };
        let sn = src_seg.as_str().unicode_len();
        if sn < 2 {
            return Err(Error::MalformedIdentifier);
        }
        if !(src_seg.as_str().get_char(0) == '(' && src_seg.as_str().get_char(sn - 1) == ')') {
            return Err(Error::MalformedIdentifier);
        }
        let inner = substr(src_seg.as_str(), 1, sn - 1);
        let source_id = match SourceId::from_url(inner.as_str()) {
            Ok(x) => x,
            Err(e) => {
                return Err(e);
            },
        };
        Ok(PackageId { name, version, source_id })
    }
}

/// Parsing an identifier and re-serializing the name and version recovers
/// exactly the original segments (the version segment up to surrounding
/// whitespace, which parsing discards).
pub proof fn lemma_identifier_round_trip(s: Seq<char>)
    requires
        parse_package_spec(s) is Ok,
    ensures
        ({
            let p = parse_package_spec(s)->Ok_0;
            let i1 = idx_of(s, ' ');
            let rest = s.subrange(i1 + 1, s.len() as int);
            let i2 = idx_of(rest, ' ');
            &&& p.name == s.subrange(0, i1)
            &&& ver_str(p.version) == trim_spec(rest.subrange(0, i2))
        }),
{
    let i1 = idx_of(s, ' ');
    let rest = s.subrange(i1 + 1, s.len() as int);
    let i2 = idx_of(rest, ' ');
    lemma_version_render_parse(trim_spec(rest.subrange(0, i2)));
}

pub open spec fn opt_lex_lt(a: Option<Seq<char>>, b: Option<Seq<char>>) -> bool {
    match (a, b) {
        (Option::None, Option::None) => false,
        (Option::None, Option::Some(_)) => true,
        (Option::Some(_), Option::None) => false,
        (Option::Some(x), Option::Some(y)) => lex_lt(x, y),
    }
}

pub open spec fn git_ref_rank(r: GitReferenceV) -> int {
    match r {
        GitReferenceV::Tag(_) => 0,
        GitReferenceV::Branch(_) => 1,
        GitReferenceV::Rev(_) => 2,
        GitReferenceV::DefaultBranch => 3,
    }
}

pub open spec fn git_ref_text(r: GitReferenceV) -> Seq<char> {
    match r {
        GitReferenceV::Tag(s) => s,
        GitReferenceV::Branch(s) => s,
        GitReferenceV::Rev(s) => s,
        GitReferenceV::DefaultBranch => Seq::<char>::empty(),
    }
}

pub open spec fn git_ref_lt(a: GitReferenceV, b: GitReferenceV) -> bool {
    git_ref_rank(a) < git_ref_rank(b) || (git_ref_rank(a) == git_ref_rank(b) && lex_lt(
        git_ref_text(a),
        git_ref_text(b),
    ))
}

pub open spec fn kind_rank(k: SourceKindV) -> int {
    match k {
        SourceKindV::Git(_) => 0,
        SourceKindV::Path => 1,
        SourceKindV::Registry => 2,
    }
}

pub open spec fn kind_lt(a: SourceKindV, b: SourceKindV) -> bool {
    kind_rank(a) < kind_rank(b) || (match (a, b) {
        (SourceKindV::Git(x), SourceKindV::Git(y)) => git_ref_lt(x, y),
        _ => false,
    })
}

/// The strict order on sources: by serialized URL, then serialized
/// canonical URL, then kind, then pin, then registry name.
pub open spec fn source_lt(a: SourceIdV, b: SourceIdV) -> bool {
    let au = url_str(a.url);
    let bu = url_str(b.url);
    let ac = url_str(a.canonical_url);
    let bc = url_str(b.canonical_url);
    if au != bu {
        lex_lt(au, bu)
    } else if ac != bc {
        lex_lt(ac, bc)
    } else if a.kind != b.kind {
        kind_lt(a.kind, b.kind)
    } else if a.precise != b.precise {
        opt_lex_lt(a.precise, b.precise)
    } else if a.name != b.name {
        opt_lex_lt(a.name, b.name)
    } else {
        false
    }
}

/// The strict total order on installed packages: by name, then version,
/// then source. Install sets are kept sorted by this order.
pub open spec fn pkg_lt(a: PackageIdV, b: PackageIdV) -> bool {
    if a.name != b.name {
        lex_lt(a.name, b.name)
    } else if a.version != b.version {
        ver_total_lt(a.version, b.version)
    } else {
        source_lt(a.source_id, b.source_id)
    }
}

proof fn lemma_lex_lt_irreflexive(a: Seq<char>)
    ensures
        !lex_lt(a, a),
    decreases a.len(),
{
    if a.len() > 0 {
        lemma_lex_lt_irreflexive(a.drop_first());
    }
}

proof fn lemma_build_idents_lt_irreflexive(a: Seq<Seq<char>>)
    ensures
        !crate::version::build_idents_lt(a, a),
    decreases a.len(),
{
    if a.len() > 0 {
        lemma_build_idents_lt_irreflexive(a.drop_first());
    }
}

/// The package order is strict: nothing precedes itself.
pub proof fn lemma_pkg_lt_irreflexive(a: PackageIdV)
    ensures
        !pkg_lt(a, a),
{
    lemma_lex_lt_irreflexive(a.name);
    lemma_build_idents_lt_irreflexive(a.version.build);
    lemma_lex_lt_irreflexive(url_str(a.source_id.url));
    lemma_lex_lt_irreflexive(url_str(a.source_id.canonical_url));
}

/// A strictly sorted install set has pairwise distinct package identities,
/// so it represents a mapping with deterministic iteration order.
pub proof fn lemma_sorted_keys_distinct(s: Seq<(PackageIdV, InstallInfoV)>)
    requires
        installs_sorted(s),
    ensures
        forall|i: int, j: int|
            0 <= i < j < s.len() ==> (#[trigger] s[i]).0 != (#[trigger] s[j]).0,
{
    assert forall|i: int, j: int|
        0 <= i < j < s.len() implies (#[trigger] s[i]).0 != (#[trigger] s[j]).0 by {
        if s[i].0 == s[j].0 {
            assert(pkg_lt(s[i].0, s[j].0));
            lemma_pkg_lt_irreflexive(s[j].0);
        }
    }
}

fn git_ref_eq(a: &GitReference, b: &GitReference) -> (r: bool)
    ensures
        r == (a@ == b@),
{
    match (a, b) {
        (GitReference::Tag(x), GitReference::Tag(y)) => str_eq(x.as_str(), y.as_str()),
        (GitReference::Branch(x), GitReference::Branch(y)) => str_eq(x.as_str(), y.as_str()),
        (GitReference::Rev(x), GitReference::Rev(y)) => str_eq(x.as_str(), y.as_str()),
        (GitReference::DefaultBranch, GitReference::DefaultBranch) => true,
        _ => false,
    }
}

fn kind_eq(a: &SourceKind, b: &SourceKind) -> (r: bool)
    ensures
        r == (a@ == b@),
{
    match (a, b) {
        (SourceKind::Git(x), SourceKind::Git(y)) => git_ref_eq(x, y),
        (SourceKind::Path, SourceKind::Path) => true,
        (SourceKind::Registry, SourceKind::Registry) => true,
        _ => false,
    }
}

fn opt_string_lt(a: &Option<String>, b: &Option<String>) -> (r: bool)
    ensures
        r == opt_lex_lt(opt_seq(*a), opt_seq(*b)),
{
    match (a, b) {
        (None, Some(_)) => true,
        (Some(x), Some(y)) => str_lt(x.as_str(), y.as_str()),
        _ => false,
    }
}

fn opt_string_eq(a: &Option<String>, b: &Option<String>) -> (r: bool)
    ensures
        r == (opt_seq(*a) == opt_seq(*b)),
{
    match (a, b) {
        (Some(x), Some(y)) => str_eq(x.as_str(), y.as_str()),
        (None, None) => true,
        _ => false,
    }
}

fn git_ref_lt_exec(a: &GitReference, b: &GitReference) -> (r: bool)
    ensures
        r == git_ref_lt(a@, b@),
{
    let ra: u8 = match a {
        GitReference::Tag(_) => 0,
        GitReference::Branch(_) => 1,
        GitReference::Rev(_) => 2,
        GitReference::DefaultBranch => 3,
    };
    let rb: u8 = match b {
        GitReference::Tag(_) => 0,
        GitReference::Branch(_) => 1,
        GitReference::Rev(_) => 2,
        GitReference::DefaultBranch => 3,
    };
    if ra < rb {
        true
    } else if ra > rb {
        false
    } else {
        let ta: &str = match a {
            GitReference::Tag(s) => s.as_str(),
            GitReference::Branch(s) => s.as_str(),
            GitReference::Rev(s) => s.as_str(),
            GitReference::DefaultBranch => "",
        };
        let tb: &str = match b {
            GitReference::Tag(s) => s.as_str(),
            GitReference::Branch(s) => s.as_str(),
            GitReference::Rev(s) => s.as_str(),
            GitReference::DefaultBranch => "",
        };
        proof {
            reveal_strlit("");
            assert(""@ =~= Seq::<char>::empty());
        }
        str_lt(ta, tb)
    }
}

fn kind_lt_exec(a: &SourceKind, b: &SourceKind) -> (r: bool)
    ensures
        r == kind_lt(a@, b@),
{
    match (a, b) {
        (SourceKind::Git(x), SourceKind::Git(y)) => git_ref_lt_exec(x, y),
        _ => {
            let ra: u8 = match a {
                SourceKind::Git(_) => 0,
                SourceKind::Path => 1,
                SourceKind::Registry => 2,
            };
            let rb: u8 = match b {
                SourceKind::Git(_) => 0,
                SourceKind::Path => 1,
                SourceKind::Registry => 2,
            };
            ra < rb
        },
    }
}

impl SourceId {
    /// Decides the strict order on sources.
    pub fn precedes(&self, other: &SourceId) -> (r: bool)
        ensures
            r == source_lt(self@, other@),
    {
        let au = crate::urls::url_to_string(&self.url);
        let bu = crate::urls::url_to_string(&other.url);
        if !str_eq(au.as_str(), bu.as_str()) {
            return str_lt(au.as_str(), bu.as_str());
        }
        let ac = self.canonical_url.to_text();
        let bc = other.canonical_url.to_text();
        if !str_eq(ac.as_str(), bc.as_str()) {
            return str_lt(ac.as_str(), bc.as_str());
        }
        if !kind_eq(&self.kind, &other.kind) {
            return kind_lt_exec(&self.kind, &other.kind);
        }
        if !opt_string_eq(&self.precise, &other.precise) {
            return opt_string_lt(&self.precise, &other.precise);
        }
        if !opt_string_eq(&self.name, &other.name) {
            return opt_string_lt(&self.name, &other.name);
        }
        false
    }
}

impl PackageId {
    /// Decides the strict total order on installed packages.
    pub fn precedes(&self, other: &PackageId) -> (r: bool)
        requires
            self@.version.wf(),
            other@.version.wf(),
        ensures
            r == pkg_lt(self@, other@),
    {
        if !str_eq(self.name.as_str(), other.name.as_str()) {
            return str_lt(self.name.as_str(), other.name.as_str());
        }
        if !self.version.equals(&other.version) {
            return self.version.total_precedes(&other.version);
        }
        self.source_id.precedes(&other.source_id)
    }
}

/// Settings a package was installed with. The detection engine treats this
/// as opaque payload and forwards it unchanged, so the installer can replay
/// the same options.
#[derive(Debug)]
pub struct InstallInfo {
    /// The version requirement the install was made under, if any.
    pub version_req: Option<String>,
    /// Names of the binaries installed.
    pub bins: Vec<String>,
    /// Features explicitly enabled.
    pub features: Vec<String>,
    /// All features enabled.
    pub all_features: bool,
    /// Default features disabled.
    pub no_default_features: bool,
    /// Profile used for installation, usually `debug` or `release`.
    pub profile: String,
    /// The installation target triple.
    pub target: String,
    /// The toolchain signature: the verbose version text of the compiler
    /// the install was made with.
    pub rustc: String,
    /// Unrecognized fields of the install record, as name and raw text
    /// pairs, passed through losslessly for a later writer.
    pub extra: Vec<(String, String)>,
}

#[verifier::ext_equal]
pub struct InstallInfoV {
    pub version_req: Option<Seq<char>>,
    pub bins: Seq<Seq<char>>,
    pub features: Seq<Seq<char>>,
    pub all_features: bool,
    pub no_default_features: bool,
    pub profile: Seq<char>,
    pub target: Seq<char>,
    pub rustc: Seq<char>,
    pub extra: Seq<(Seq<char>, Seq<char>)>,
}

impl View for InstallInfo {
    type V = InstallInfoV;

    open spec fn view(&self) -> InstallInfoV {
        InstallInfoV {
            version_req: opt_seq(self.version_req),
            bins: self.bins.deep_view(),
            features: self.features.deep_view(),
            all_features: self.all_features,
            no_default_features: self.no_default_features,
            profile: self.profile@,
            target: self.target@,
            rustc: self.rustc@,
            extra: pairs_view(self.extra@),
        }
    }
}

/// `--bin <name>` for each installed binary, in order.
pub open spec fn bin_flags(bins: Seq<Seq<char>>) -> Seq<Seq<char>>
    decreases bins.len(),
{
    if bins.len() == 0 {
        Seq::<Seq<char>>::empty()
    } else {
        seq!["--bin"@, bins[0]] + bin_flags(bins.drop_first())
    }
}

/// The feature list joined with commas.
pub open spec fn join_commas(parts: Seq<Seq<char>>) -> Seq<char>
    decreases parts.len(),
{
    if parts.len() == 0 {
        Seq::<char>::empty()
    } else if parts.len() == 1 {
        parts[0]
    } else {
        parts[0] + seq![','] + join_commas(parts.drop_first())
    }
}

/// The feature selection flags: `--all-features` wins over an explicit list.
pub open spec fn feature_flags(i: InstallInfoV) -> Seq<Seq<char>> {
    if i.all_features {
        seq!["--all-features"@]
    } else if i.features.len() > 0 {
        seq!["--features"@, join_commas(i.features)]
    } else {
        Seq::<Seq<char>>::empty()
    }
}

/// The extra arguments an install replay passes: binaries, features,
/// default-feature handling and profile, in this order.
pub open spec fn install_args_spec(i: InstallInfoV) -> Seq<Seq<char>> {
    bin_flags(i.bins) + feature_flags(i) + (if i.no_default_features {
        seq!["--no-default-features"@]
    } else {
        Seq::<Seq<char>>::empty()
    }) + (if i.profile.len() > 0 {
        seq!["--profile"@, i.profile]
    } else {
        Seq::<Seq<char>>::empty()
    })
}

spec fn comma_tail(parts: Seq<Seq<char>>, i: int) -> Seq<char>
    decreases parts.len() - i,
{
    if i < 0 || i >= parts.len() {
        Seq::<char>::empty()
    } else {
        seq![','] + parts[i] + comma_tail(parts, i + 1)
    }
}

proof fn lemma_join_commas_as_tail(parts: Seq<Seq<char>>)
    requires
        parts.len() >= 1,
    ensures
        join_commas(parts) == parts[0] + comma_tail(parts, 1),
    decreases parts.len(),
{
    if parts.len() == 1 {
        assert(comma_tail(parts, 1) == Seq::<char>::empty());
        assert(parts[0] + Seq::<char>::empty() =~= parts[0]);
    } else {
        lemma_join_commas_as_tail(parts.drop_first());
        lemma_comma_tail_shift(parts, 1);
        assert(parts.drop_first()[0] == parts[1]);
        assert(join_commas(parts) == parts[0] + seq![','] + (parts[1] + comma_tail(
            parts.drop_first(),
            1,
        )));
        assert(parts[0] + seq![','] + (parts[1] + comma_tail(parts, 2)) =~= parts[0] + (seq![',']
            + parts[1] + comma_tail(parts, 2)));
        assert(comma_tail(parts, 1) == seq![','] + parts[1] + comma_tail(parts, 2));
    }
}

proof fn lemma_comma_tail_shift(parts: Seq<Seq<char>>, i: int)
    requires
        1 <= i,
        parts.len() >= 1,
    ensures
        comma_tail(parts.drop_first(), i) == comma_tail(parts, i + 1),
    decreases parts.len() - i,
{
    assert(parts.drop_first().len() == parts.len() - 1);
    if i < parts.len() - 1 {
        assert(parts.drop_first()[i] == parts[i + 1]);
        lemma_comma_tail_shift(parts, i + 1);
    }
}

/// Joins the feature names with commas.
pub fn join_commas_vec(parts: &Vec<String>) -> (r: String)
    requires
        parts.len() >= 1,
    ensures
        r@ == join_commas(parts.deep_view()),
{
    let mut out: String = parts[0].clone();
    proof {
        lemma_join_commas_as_tail(parts.deep_view());
        assert(parts.deep_view()[0] == parts[0]@);
        assert(out@ == parts.deep_view()[0]);
    }
    let mut i: usize = 1;
    while i < parts.len()
        invariant
            1 <= i <= parts.len(),
            join_commas(parts.deep_view()) == out@ + comma_tail(parts.deep_view(), i as int),
        decreases parts.len() - i,
    {
        let ghost prev = out@;
        let ghost dv = parts.deep_view();
        crate::strings::push_char(&mut out, ',');
        out.append(parts[i].as_str());
        proof {
            assert(dv[i as int] == parts[i as int]@);
            assert(out@ =~= prev + (seq![','] + dv[i as int]));
            assert(prev + (seq![','] + dv[i as int]) + comma_tail(dv, i + 1) =~= prev + comma_tail(
                dv,
                i as int,
            ));
        }
        i = i + 1;
    }
    proof {
        assert(comma_tail(parts.deep_view(), parts.len() as int) == Seq::<char>::empty());
        assert(out@ + Seq::<char>::empty() =~= out@);
    }
    out
}

/// Computes the extra `install` arguments that replay this install's
/// settings: one `--bin` pair per binary, the feature selection, the
/// default-feature switch and the profile.
pub fn install_args(info: &InstallInfo) -> (r: Vec<String>)
    ensures
        r.deep_view() == install_args_spec(info@),
{
    let ghost bv = info@.bins;
    let mut out: Vec<String> = Vec::new();
    proof {
        assert(bv.skip(0) =~= bv);
        assert(out.deep_view() =~= Seq::<Seq<char>>::empty());
        assert(out.deep_view() + bin_flags(bv) =~= bin_flags(bv));
    }
    let mut i: usize = 0;
    while i < info.bins.len()
        invariant
            0 <= i <= info.bins.len(),
            bv == info@.bins,
            bv.len() == info.bins.len(),
            bin_flags(bv) == out.deep_view() + bin_flags(bv.skip(i as int)),
        decreases info.bins.len() - i,
    {
        let ghost prev = out.deep_view();
        proof {
            reveal_strlit("--bin");
            assert(bv.skip(i as int).len() == bv.len() - i);
            assert(bv.skip(i as int)[0] == bv[i as int]);
            assert(bv[i as int] == info.bins[i as int]@);
            assert(bv.skip(i as int).drop_first() =~= bv.skip(i + 1));
        }
        out.push("--bin".to_owned());
        out.push(info.bins[i].clone());
        proof {
            assert(out.deep_view() =~= prev + seq!["--bin"@, bv[i as int]]);
            assert(prev + seq!["--bin"@, bv[i as int]] + bin_flags(bv.skip(i + 1)) =~= prev
                + bin_flags(bv.skip(i as int)));
        }
        i = i + 1;
    }
    proof {
        assert(bin_flags(bv.skip(info.bins.len() as int)).len() == 0);
        assert(out.deep_view() + bin_flags(bv.skip(info.bins.len() as int)) =~= out.deep_view());
        assert(out.deep_view() == bin_flags(bv));
    }
    let ghost after_bins = out.deep_view();
    if info.all_features {
        out.push("--all-features".to_owned());
        proof {
            assert(out.deep_view() =~= after_bins + feature_flags(info@));
        }
    } else if info.features.len() > 0 {
        out.push("--features".to_owned());
        let joined = join_commas_vec(&info.features);
        out.push(joined);
        proof {
            assert(out.deep_view() =~= after_bins + feature_flags(info@));
        }
    } else {
        proof {
            assert(feature_flags(info@).len() == 0);
            assert(out.deep_view() =~= after_bins + feature_flags(info@));
        }
    }
    let ghost after_features = out.deep_view();
    if info.no_default_features {
        out.push("--no-default-features".to_owned());
        proof {
            assert(out.deep_view() =~= after_features + seq!["--no-default-features"@]);
        }
    }
    let ghost after_ndf = out.deep_view();
    if info.profile.as_str().unicode_len() > 0 {
        out.push("--profile".to_owned());
        out.push(info.profile.clone());
        proof {
            assert(out.deep_view() =~= after_ndf + seq!["--profile"@, info@.profile]);
        }
    }
    proof {
        assert(out.deep_view() =~= install_args_spec(info@));
    }
    out
}

/// The full install set, as read from the install-state file: one entry per
/// installed package, kept sorted by the package order.
pub struct CrateListingV2 {
    pub installs: Vec<(PackageId, InstallInfo)>,
}

/// The value of an install list: package and settings pairs.
pub open spec fn installs_view(v: Seq<(PackageId, InstallInfo)>) -> Seq<(PackageIdV, InstallInfoV)> {
    Seq::new(v.len(), |i: int| (v[i].0@, v[i].1@))
}

pub open spec fn installs_wf(s: Seq<(PackageIdV, InstallInfoV)>) -> bool {
    forall|i: int| 0 <= i < s.len() ==> (#[trigger] s[i]).0.wf()
}

/// Strictly increasing in the package order: every pair of positions is
/// ordered, so keys are distinct and iteration order is deterministic.
pub open spec fn installs_sorted(s: Seq<(PackageIdV, InstallInfoV)>) -> bool {
    forall|i: int, j: int| 0 <= i < j < s.len() ==> pkg_lt(#[trigger] s[i].0, #[trigger] s[j].0)
}

impl CrateListingV2 {
    pub open spec fn wf(self) -> bool {
        installs_wf(installs_view(self.installs@))
    }

    /// Whether every entry is well formed; callers establish `wf` with this.
    pub fn check_wf(&self) -> (r: bool)
        ensures
            r == self.wf(),
    {
        let mut i: usize = 0;
        while i < self.installs.len()
            invariant
                0 <= i <= self.installs.len(),
                forall|j: int| 0 <= j < i ==> (#[trigger] installs_view(self.installs@)[j]).0.wf(),
            decreases self.installs.len() - i,
        {
            let p = &self.installs[i].0;
            let name_ok = p.name.as_str().unicode_len() > 0;
            let ver_ok = check_version_wf(&p.version);
            let src_ok = check_source_wf(&p.source_id);
            proof {
                assert(installs_view(self.installs@)[i as int].0 == self.installs@[i as int].0@);
            }
            if !(name_ok && ver_ok && src_ok) {
                return false;
            }
            i = i + 1;
        }
        true
    }

    /// Whether the entries are strictly sorted by the package order;
    /// callers establish `installs_sorted` with this.
    pub fn check_sorted(&self) -> (r: bool)
        requires
            self.wf(),
        ensures
            r == installs_sorted(installs_view(self.installs@)),
    {
        let ghost iv = installs_view(self.installs@);
        let mut i: usize = 0;
        while i < self.installs.len()
            invariant
                0 <= i <= self.installs.len(),
                iv == installs_view(self.installs@),
                iv.len() == self.installs.len(),
                installs_wf(iv),
                forall|x: int, y: int| 0 <= x < y < self.installs.len() && x < i ==> pkg_lt(
                    (#[trigger] iv[x]).0,
                    (#[trigger] iv[y]).0,
                ),
            decreases self.installs.len() - i,
        {
            let mut j: usize = i + 1;
            while j < self.installs.len()
                invariant
                    0 <= i < j <= self.installs.len(),
                    iv == installs_view(self.installs@),
                    iv.len() == self.installs.len(),
                    installs_wf(iv),
                    forall|y: int| i < y < j ==> pkg_lt(iv[i as int].0, (#[trigger] iv[y]).0),
                decreases self.installs.len() - j,
            {
                proof {
                    assert(iv[i as int].0 == self.installs@[i as int].0@);
                    assert(iv[j as int].0 == self.installs@[j as int].0@);
                    assert(iv[i as int].0.wf());
                    assert(iv[j as int].0.wf());
                }
                if !self.installs[i].0.precedes(&self.installs[j].0) {
                    return false;
                }
                j = j + 1;
            }
            i = i + 1;
        }
        true
    }
}

impl CanonicalUrl {
    /// A deep copy.
    pub fn duplicate(&self) -> (r: CanonicalUrl)
        ensures
            r@ == self@,
    {
        CanonicalUrl(self.0.duplicate())
    }
}

impl SourceId {
    /// A deep copy.
    pub fn duplicate(&self) -> (r: SourceId)
        ensures
            r@ == self@,
    {
        let r = SourceId {
            url: self.url.duplicate(),
            canonical_url: self.canonical_url.duplicate(),
            kind: self.kind.duplicate(),
            precise: match &self.precise {
                Some(p) => Some(p.clone()),
                None => None,
            },
            name: match &self.name {
                Some(n) => Some(n.clone()),
                None => None,
            },
        };
        proof {
            assert(r@ =~= self@);
        }
        r
    }
}

impl PackageId {
    /// A deep copy.
    pub fn duplicate(&self) -> (r: PackageId)
        ensures
            r@ == self@,
    {
        let r = PackageId {
            name: self.name.clone(),
            version: self.version.duplicate(),
            source_id: self.source_id.duplicate(),
        };
        proof {
            assert(r@ =~= self@);
        }
        r
    }
}

impl InstallInfo {
    /// A deep copy.
    pub fn duplicate(&self) -> (r: InstallInfo)
        ensures
            r@ == self@,
    {
        let r = InstallInfo {
            version_req: match &self.version_req {
                Some(v) => Some(v.clone()),
                None => None,
            },
            bins: crate::strings::clone_string_vec(&self.bins),
            features: crate::strings::clone_string_vec(&self.features),
            all_features: self.all_features,
            no_default_features: self.no_default_features,
            profile: self.profile.clone(),
            target: self.target.clone(),
            rustc: self.rustc.clone(),
            extra: clone_pairs(&self.extra),
        };
        proof {
            assert(r@ =~= self@);
        }
        r
    }
}

/// A deep copy of a list of string pairs.
fn clone_pairs(v: &Vec<(String, String)>) -> (r: Vec<(String, String)>)
    ensures
        pairs_view(r@) == pairs_view(v@),
{
    let mut r: Vec<(String, String)> = Vec::new();
    let mut i: usize = 0;
    while i < v.len()
        invariant
            0 <= i <= v.len(),
            r@.len() == i,
            forall|j: int| 0 <= j < i ==> r@[j].0@ == v@[j].0@ && r@[j].1@ == v@[j].1@,
        decreases v.len() - i,
    {
        r.push((v[i].0.clone(), v[i].1.clone()));
        i = i + 1;
    }
    proof {
        assert(pairs_view(r@) =~= pairs_view(v@));
    }
    r
}

fn check_version_wf(v: &Version) -> (r: bool)
    ensures
        r == v@.wf(),
{
    let pre_ok = crate::version::check_pre_idents(&v.pre);
    let build_ok = crate::version::check_build_idents(&v.build);
    pre_ok && build_ok
}

fn check_source_wf(s: &SourceId) -> (r: bool)
    ensures
        r == s@.wf(),
{
    match CanonicalUrl::new(&s.url) {
        Ok(c) => c.0.equals(&s.canonical_url.0),
        Err(_) => false,
    }
}

} // verus!
