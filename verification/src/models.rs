//! Update descriptors: what each detector reports when a newer state is
//! available, paired with the install settings needed to replay the install.

use vstd::prelude::*;

use crate::cargo::InstallInfo;
use crate::cargo::InstallInfoV;
use crate::cargo::PackageId;
use crate::git::CommitId;
use crate::version::Version;
use crate::version::VersionV;

verus! {

/// An available update: the original install settings plus kind-specific
/// data. Created once per package that has an update; never mutated.
pub struct UpdateInfo<T> {
    pub install_info: InstallInfo,
    pub extra: T,
}

#[verifier::ext_equal]
pub struct UpdateInfoV<E> {
    pub install_info: InstallInfoV,
    pub extra: E,
}

impl<T: View> View for UpdateInfo<T> {
    type V = UpdateInfoV<T::V>;

    open spec fn view(&self) -> UpdateInfoV<T::V> {
        UpdateInfoV { install_info: self.install_info@, extra: self.extra@ }
    }
}

impl<T> UpdateInfo<T> {
    pub fn new(install_info: InstallInfo, extra: T) -> (r: Self)
        ensures
            r.install_info == install_info,
            r.extra == extra,
    {
        Self { install_info, extra }
    }
}

/// A newer version published on the registry.
#[derive(Debug)]
pub struct RegistryInfo {
    pub version: Version,
}

#[verifier::ext_equal]
pub struct RegistryInfoV {
    pub version: VersionV,
}

impl View for RegistryInfo {
    type V = RegistryInfoV;

    open spec fn view(&self) -> RegistryInfoV {
        RegistryInfoV { version: self.version@ }
    }
}

/// What a tree-to-tree diff of two commits amounts to; `commits == 0`
/// means no update and suppresses the report.
#[derive(Clone, Copy, Debug, PartialEq, Eq, Structural)]
pub struct GitChanges {
    pub commits: usize,
    pub files_changed: usize,
    pub insertions: usize,
    pub deletions: usize,
}

impl Default for GitChanges {
    fn default() -> (r: Self)
        ensures
            r.commits == 0 && r.files_changed == 0 && r.insertions == 0 && r.deletions == 0,
    {
        GitChanges { commits: 0, files_changed: 0, insertions: 0, deletions: 0 }
    }
}

/// Which remote reference a Git update tracks.
#[derive(Debug)]
pub enum GitTarget {
    /// The remote's default branch.
    Default,
    /// A named branch.
    Branch(String),
}

pub enum GitTargetV {
    Default,
    Branch(Seq<char>),
}

impl View for GitTarget {
    type V = GitTargetV;

    open spec fn view(&self) -> GitTargetV {
        match self {
            GitTarget::Default => GitTargetV::Default,
            GitTarget::Branch(b) => GitTargetV::Branch(b@),
        }
    }
}

/// A newer commit on the tracked reference of a Git source.
#[derive(Debug)]
pub struct GitInfo {
    /// Human label of what was checked: a branch name or `HEAD`.
    pub label: String,
    /// The commit the install is pinned at.
    pub old_commit: CommitId,
    /// The freshly fetched tip.
    pub new_commit: CommitId,
    /// Size of the change between the two.
    pub changes: GitChanges,
    /// The reference to pass to the installer.
    pub target: GitTarget,
}

#[verifier::ext_equal]
pub struct GitInfoV {
    pub label: Seq<char>,
    pub old_commit: Seq<u8>,
    pub new_commit: Seq<u8>,
    pub changes: GitChanges,
    pub target: GitTargetV,
}

impl View for GitInfo {
    type V = GitInfoV;

    open spec fn view(&self) -> GitInfoV {
        GitInfoV {
            label: self.label@,
            old_commit: self.old_commit@,
            new_commit: self.new_commit@,
            changes: self.changes,
            target: self.target@,
        }
    }
}

/// A local-path source that is eligible to be refreshed; freshness of a
/// local path cannot be determined, so there is nothing else to record.
#[derive(Debug)]
pub struct PathInfo {}

#[verifier::ext_equal]
pub struct PathInfoV {}

impl View for PathInfo {
    type V = PathInfoV;

    open spec fn view(&self) -> PathInfoV {
        PathInfoV {}
    }
}

/// The three result mappings of one detection run, each an ordered list of
/// package and update pairs, in the package order.
pub struct Updates {
    pub registry: Vec<(PackageId, UpdateInfo<RegistryInfo>)>,
    pub git: Vec<(PackageId, UpdateInfo<GitInfo>)>,
    pub path: Vec<(PackageId, UpdateInfo<PathInfo>)>,
}

impl Default for Updates {
    fn default() -> (r: Self)
        ensures
            r.registry@.len() == 0 && r.git@.len() == 0 && r.path@.len() == 0,
    {
        Updates { registry: Vec::new(), git: Vec::new(), path: Vec::new() }
    }
}

} // verus!
