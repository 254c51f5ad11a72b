//! The registry detector: given what the index reports as the latest
//! published version, decides whether a package has an update.

use vstd::prelude::*;
use vstd::string::StrSliceExecFns;
use vstd::string::StringExecFns;

use crate::cargo::PackageId;
use crate::cargo::PackageIdV;
use crate::errors::Error;
use crate::models::RegistryInfo;
use crate::strings::str_eq;
use crate::urls::url_str;
use crate::urls::url_to_string;
use crate::version::parse_version_spec;
use crate::version::ver_lt;
use crate::version::Version;
use crate::version::VersionV;

verus! {

/// Remote Git repository location of the one supported registry.
pub const CRATES_IO_GIT_URL: &'static str = "https://github.com/rust-lang/crates.io-index";

/// What the registry detector decides for one package, given the latest
/// version the index reports for its name (`None` when the name is absent):
/// packages from any other registry endpoint are skipped; an absent name is
/// an error, as is an unparsable upstream version; a pre-release wins only
/// when pre-releases are allowed; and an update exists exactly when the
/// latest version strictly exceeds the installed one under SemVer
/// precedence, build metadata ignored.
pub open spec fn registry_outcome(
    p: PackageIdV,
    latest: Option<Seq<char>>,
    pre: bool,
) -> Result<Option<VersionV>, Error> {
    if url_str(p.source_id.url) != CRATES_IO_GIT_URL@ {
        Result::Ok(Option::None)
    } else {
        match latest {
            Option::None => Result::Err(Error::PackageNotFound),
            Option::Some(ls) => match parse_version_spec(ls) {
                Option::None => Result::Err(Error::InvalidUpstreamVersion),
                Option::Some(lv) => {
                    if lv.pre.len() > 0 && !pre {
                        Result::Ok(Option::None)
                    } else if ver_lt(p.version, lv) {
                        Result::Ok(Option::Some(lv))
                    } else {
                        Result::Ok(Option::None)
                    }
                },
            },
        }
    }
}

pub open spec fn opt_latest_view(latest: Option<String>) -> Option<Seq<char>> {
    match latest {
        Option::None => Option::None,
        Option::Some(s) => Option::Some(s@),
    }
}

/// Decides whether a newer registry version exists for `package`, given the
/// latest version string the index reports for its name.
pub fn check_update(package: &PackageId, latest: &Option<String>, pre: bool) -> (r: Result<
    Option<RegistryInfo>,
    Error,
>)
    requires
        package@.version.wf(),
    ensures
        match r {
            Ok(Option::None) => registry_outcome(package@, opt_latest_view(*latest), pre)
                == Result::<Option<VersionV>, Error>::Ok(Option::<VersionV>::None),
            Ok(Option::Some(info)) => registry_outcome(package@, opt_latest_view(*latest), pre)
                == Result::<Option<VersionV>, Error>::Ok(Option::Some(info@.version))
                && info@.version.wf(),
            Err(e) => registry_outcome(package@, opt_latest_view(*latest), pre) == Result::<
                Option<VersionV>,
                Error,
            >::Err(e),
        },
{
    let ser = url_to_string(&package.source_id.url);
    if !str_eq(ser.as_str(), CRATES_IO_GIT_URL) {
        return Ok(None);
    }
    let ls = match latest {
        Some(ls) => ls,
        None => {
            return Err(Error::PackageNotFound);
        },
    };
    let lv = match Version::parse(ls.as_str()) {
        Some(v) => v,
        None => {
            return Err(Error::InvalidUpstreamVersion);
        },
    };
    if lv.pre.len() > 0 && !pre {
        return Ok(None);
    }
    if package.version.precedes(&lv) {
        Ok(Some(RegistryInfo { version: lv }))
    } else {
        Ok(None)
    }
}

} // verus!
