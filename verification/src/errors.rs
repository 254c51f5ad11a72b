//! The error taxonomy of the engine. Callers branch on the variant; the
//! offending package's name travels beside the error where one applies.

use vstd::prelude::*;

verus! {

#[derive(Clone, Copy, Debug, PartialEq, Eq, Structural)]
pub enum Error {
    /// An install-state identifier did not have the `name version (source)` shape.
    MalformedIdentifier,
    /// The source tag before the `+` names no supported source kind.
    UnsupportedSourceKind,
    /// The URL has no hierarchical structure, or could not be parsed at all.
    UnsupportedUrlShape,
    /// An installed package's name is absent from the registry index.
    PackageNotFound,
    /// The registry reports a latest version that is not valid SemVer.
    InvalidUpstreamVersion,
    /// Opening, fetching or diffing a repository cache failed.
    RepositoryAccessFailure,
    /// The network was unreachable while talking to a remote.
    NetworkFailure,
}

impl Error {
    /// A short stable name for the error, for reports.
    pub fn describe(&self) -> (r: &'static str)
        ensures
            r@.len() > 0,
    {
        proof {
            reveal_strlit("malformed identifier");
            reveal_strlit("unsupported source kind");
            reveal_strlit("unsupported url shape");
            reveal_strlit("package not found");
            reveal_strlit("invalid upstream version");
            reveal_strlit("repository access failure");
            reveal_strlit("network failure");
        }
        match self {
            Error::MalformedIdentifier => "malformed identifier",
            Error::UnsupportedSourceKind => "unsupported source kind",
            Error::UnsupportedUrlShape => "unsupported url shape",
            Error::PackageNotFound => "package not found",
            Error::InvalidUpstreamVersion => "invalid upstream version",
            Error::RepositoryAccessFailure => "repository access failure",
            Error::NetworkFailure => "network failure",
        }
    }
}

} // verus!
