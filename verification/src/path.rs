//! The path detector: a local path's freshness cannot be determined, so
//! enabling the category is itself the signal to refresh.

use vstd::prelude::*;

use crate::cargo::PackageId;
use crate::errors::Error;
use crate::models::PathInfo;

verus! {

/// Reports a refresh for every local-path package exactly when the path
/// category is enabled.
pub fn check_update(_package: &PackageId, path_enabled: bool) -> (r: Result<
    Option<PathInfo>,
    Error,
>)
    ensures
        match r {
            Ok(o) => (o is Some) == path_enabled,
            Err(_) => false,
        },
{
    if !path_enabled {
        return Ok(None);
    }
    Ok(Some(PathInfo {  }))
}

} // verus!
