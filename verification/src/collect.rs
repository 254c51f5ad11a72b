//! The update collector: dispatches every installed package to the detector
//! of its source kind and partitions the results by kind, with per-package
//! failures reported beside the successes.

use vstd::prelude::*;

use crate::cargo::CrateListingV2;
use crate::cargo::installs_view;
use crate::cargo::InstallInfoV;
use crate::cargo::PackageIdV;
use crate::cargo::SourceKind;
use crate::cargo::SourceKindV;
use crate::errors::Error;
use crate::git::changes_of;
use crate::git::commits_view;
use crate::git::complete_check;
use crate::git::git_changes;
use crate::git::plan_check;
use crate::git::plan_spec;
use crate::git::CommitId;
use crate::git::FileDiff;
use crate::models::GitInfo;
use crate::models::GitInfoV;
use crate::models::PathInfo;
use crate::models::PathInfoV;
use crate::models::RegistryInfo;
use crate::models::RegistryInfoV;
use crate::models::UpdateInfo;
use crate::models::UpdateInfoV;
use crate::models::Updates;
use crate::registry::registry_outcome;
use crate::registry::opt_latest_view;

verus! {

/// Which update categories a run checks; pre-releases count as registry
/// updates only when `pre` is set.
#[derive(Clone, Copy, Debug, PartialEq, Eq, Structural)]
pub struct SelectArgs {
    /// Include pre-releases in registry updates.
    pub pre: bool,
    /// Check packages installed from git repositories.
    pub git: bool,
    /// Refresh packages installed from local paths.
    pub path: bool,
}

/// What the runner gathered for one Git package: the freshly fetched tip,
/// its ancestry walk (tip first), and the per-file diff against the pin.
pub struct GitObservation {
    pub new_commit: CommitId,
    pub ancestry: Vec<CommitId>,
    pub files: Vec<FileDiff>,
}

#[verifier::ext_equal]
pub struct GitObservationV {
    pub new_commit: Seq<u8>,
    pub ancestry: Seq<Seq<u8>>,
    pub files: Seq<FileDiff>,
}

impl View for GitObservation {
    type V = GitObservationV;

    open spec fn view(&self) -> GitObservationV {
        GitObservationV {
            new_commit: self.new_commit@,
            ancestry: commits_view(self.ancestry@),
            files: self.files@,
        }
    }
}

/// Why the outside work for one Git package failed.
#[derive(Clone, Copy, Debug, PartialEq, Eq, Structural)]
pub enum GitFailure {
    /// Opening, fetching into or diffing the repository cache failed.
    Repository,
    /// The remote was unreachable.
    Network,
}

pub open spec fn git_failure_error(f: GitFailure) -> Error {
    match f {
        GitFailure::Repository => Error::RepositoryAccessFailure,
        GitFailure::Network => Error::NetworkFailure,
    }
}

/// What the runner observed for one package, matching its source kind:
/// the index lookup result for a registry package, the fetch outcome for a
/// Git package (absent when no fetch was planned), nothing for a path.
pub enum SourceData {
    Registry { latest: Option<String> },
    Git { outcome: Option<Result<GitObservation, GitFailure>> },
    Path,
}

pub enum SourceDataV {
    Registry(Option<Seq<char>>),
    Git(Option<Result<GitObservationV, GitFailure>>),
    Path,
}

impl View for SourceData {
    type V = SourceDataV;

    open spec fn view(&self) -> SourceDataV {
        match self {
            SourceData::Registry { latest } => SourceDataV::Registry(
                match latest {
                    Option::None => Option::None,
                    Option::Some(s) => Option::Some(s@),
                },
            ),
            SourceData::Git { outcome } => SourceDataV::Git(
                match outcome {
                    Option::None => Option::None,
                    Option::Some(Result::Ok(o)) => Option::Some(Result::Ok(o@)),
                    Option::Some(Result::Err(f)) => Option::Some(Result::Err(*f)),
                },
            ),
            SourceData::Path => SourceDataV::Path,
        }
    }
}

pub open spec fn data_view(d: Seq<SourceData>) -> Seq<SourceDataV> {
    Seq::new(d.len(), |i: int| d[i]@)
}

/// The observation fits the package: its variant matches the source kind,
/// and a Git observation is present exactly when a fetch was planned.
pub open spec fn data_matches(p: PackageIdV, d: SourceDataV, args: SelectArgs) -> bool {
    match (p.source_id.kind, d) {
        (SourceKindV::Registry, SourceDataV::Registry(_)) => true,
        (SourceKindV::Git(gref), SourceDataV::Git(outcome)) => (outcome is Some) == (plan_spec(
            gref,
            p.source_id.precise,
            args.git,
        ) is Some),
        (SourceKindV::Path, SourceDataV::Path) => true,
        _ => false,
    }
}

/// What one package's check amounts to: an update of its kind, no update,
/// or a failure attributed to it.
pub enum DetectionV {
    RegistryUpdate(crate::version::VersionV),
    GitUpdate(GitInfoV),
    PathUpdate,
    NoUpdate,
    Failed(Error),
}

/// The decision for one package, by its source kind.
pub open spec fn detection(p: PackageIdV, d: SourceDataV, args: SelectArgs) -> DetectionV {
    match (p.source_id.kind, d) {
        (SourceKindV::Registry, SourceDataV::Registry(latest)) => {
            match registry_outcome(p, latest, args.pre) {
                Result::Err(e) => DetectionV::Failed(e),
                Result::Ok(Option::None) => DetectionV::NoUpdate,
                Result::Ok(Option::Some(v)) => DetectionV::RegistryUpdate(v),
            }
        },
        (SourceKindV::Git(gref), SourceDataV::Git(outcome)) => {
            match outcome {
                Option::None => DetectionV::NoUpdate,
                Option::Some(Result::Err(f)) => DetectionV::Failed(git_failure_error(f)),
                Option::Some(Result::Ok(obs)) => {
                    match plan_spec(gref, p.source_id.precise, args.git) {
                        Option::None => DetectionV::NoUpdate,
                        Option::Some(plan) => {
                            let changes = changes_of(obs.ancestry, plan.old_commit, obs.files);
                            if changes.commits == 0 {
                                DetectionV::NoUpdate
                            } else {
                                DetectionV::GitUpdate(
                                    GitInfoV {
                                        label: plan.label,
                                        old_commit: plan.old_commit,
                                        new_commit: obs.new_commit,
                                        changes,
                                        target: plan.target,
                                    },
                                )
                            }
                        },
                    }
                },
            }
        },
        (SourceKindV::Path, SourceDataV::Path) => {
            if args.path {
                DetectionV::PathUpdate
            } else {
                DetectionV::NoUpdate
            }
        },
        _ => DetectionV::NoUpdate,
    }
}

/// The walk was exhausted without finding the pinned commit: an anomaly
/// that is reported by name but does not fail the package.
pub open spec fn is_anomaly(p: PackageIdV, d: SourceDataV, args: SelectArgs) -> bool {
    match (p.source_id.kind, d) {
        (SourceKindV::Git(gref), SourceDataV::Git(Option::Some(Result::Ok(obs)))) => {
            match plan_spec(gref, p.source_id.precise, args.git) {
                Option::Some(plan) => !obs.ancestry.contains(plan.old_commit)
                    && obs.ancestry.len() > 0,
                Option::None => false,
            }
        },
        _ => false,
    }
}

pub open spec fn head_registry(p: PackageIdV, inf: InstallInfoV, d: SourceDataV, args: SelectArgs) -> Seq<
    (PackageIdV, UpdateInfoV<RegistryInfoV>),
> {
    match detection(p, d, args) {
        DetectionV::RegistryUpdate(v) => seq![
            (p, UpdateInfoV { install_info: inf, extra: RegistryInfoV { version: v } }),
        ],
        _ => Seq::empty(),
    }
}

pub open spec fn head_git(p: PackageIdV, inf: InstallInfoV, d: SourceDataV, args: SelectArgs) -> Seq<
    (PackageIdV, UpdateInfoV<GitInfoV>),
> {
    match detection(p, d, args) {
        DetectionV::GitUpdate(g) => seq![(p, UpdateInfoV { install_info: inf, extra: g })],
        _ => Seq::empty(),
    }
}

pub open spec fn head_path(p: PackageIdV, inf: InstallInfoV, d: SourceDataV, args: SelectArgs) -> Seq<
    (PackageIdV, UpdateInfoV<PathInfoV>),
> {
    match detection(p, d, args) {
        DetectionV::PathUpdate => seq![
            (p, UpdateInfoV { install_info: inf, extra: PathInfoV {  } }),
        ],
        _ => Seq::empty(),
    }
}

pub open spec fn head_failure(p: PackageIdV, d: SourceDataV, args: SelectArgs) -> Seq<
    (Seq<char>, Error),
> {
    match detection(p, d, args) {
        DetectionV::Failed(e) => seq![(p.name, e)],
        _ => Seq::empty(),
    }
}

pub open spec fn head_anomaly(p: PackageIdV, d: SourceDataV, args: SelectArgs) -> Seq<Seq<char>> {
    if is_anomaly(p, d, args) {
        seq![p.name]
    } else {
        Seq::empty()
    }
}

/// The registry update list a run must produce, entry by entry.
pub open spec fn expected_registry(
    iv: Seq<(PackageIdV, InstallInfoV)>,
    dv: Seq<SourceDataV>,
    args: SelectArgs,
) -> Seq<(PackageIdV, UpdateInfoV<RegistryInfoV>)>
    decreases iv.len(),
{
    if iv.len() == 0 || dv.len() == 0 {
        Seq::empty()
    } else {
        head_registry(iv[0].0, iv[0].1, dv[0], args) + expected_registry(
            iv.drop_first(),
            dv.drop_first(),
            args,
        )
    }
}

/// The Git update list a run must produce, entry by entry.
pub open spec fn expected_git(
    iv: Seq<(PackageIdV, InstallInfoV)>,
    dv: Seq<SourceDataV>,
    args: SelectArgs,
) -> Seq<(PackageIdV, UpdateInfoV<GitInfoV>)>
    decreases iv.len(),
{
    if iv.len() == 0 || dv.len() == 0 {
        Seq::empty()
    } else {
        head_git(iv[0].0, iv[0].1, dv[0], args) + expected_git(
            iv.drop_first(),
            dv.drop_first(),
            args,
        )
    }
}

/// The path refresh list a run must produce, entry by entry.
pub open spec fn expected_path(
    iv: Seq<(PackageIdV, InstallInfoV)>,
    dv: Seq<SourceDataV>,
    args: SelectArgs,
) -> Seq<(PackageIdV, UpdateInfoV<PathInfoV>)>
    decreases iv.len(),
{
    if iv.len() == 0 || dv.len() == 0 {
        Seq::empty()
    } else {
        head_path(iv[0].0, iv[0].1, dv[0], args) + expected_path(
            iv.drop_first(),
            dv.drop_first(),
            args,
        )
    }
}

/// The per-package failures a run must report, entry by entry.
pub open spec fn expected_failures(
    iv: Seq<(PackageIdV, InstallInfoV)>,
    dv: Seq<SourceDataV>,
    args: SelectArgs,
) -> Seq<(Seq<char>, Error)>
    decreases iv.len(),
{
    if iv.len() == 0 || dv.len() == 0 {
        Seq::empty()
    } else {
        head_failure(iv[0].0, dv[0], args) + expected_failures(
            iv.drop_first(),
            dv.drop_first(),
            args,
        )
    }
}

/// The anomalies a run must report, entry by entry.
pub open spec fn expected_anomalies(
    iv: Seq<(PackageIdV, InstallInfoV)>,
    dv: Seq<SourceDataV>,
    args: SelectArgs,
) -> Seq<Seq<char>>
    decreases iv.len(),
{
    if iv.len() == 0 || dv.len() == 0 {
        Seq::empty()
    } else {
        head_anomaly(iv[0].0, dv[0], args) + expected_anomalies(
            iv.drop_first(),
            dv.drop_first(),
            args,
        )
    }
}

proof fn lemma_expected_step(
    iv: Seq<(PackageIdV, InstallInfoV)>,
    dv: Seq<SourceDataV>,
    args: SelectArgs,
    i: int,
)
    requires
        iv.len() == dv.len(),
        0 <= i < iv.len(),
    ensures
        expected_registry(iv.skip(i), dv.skip(i), args) == head_registry(
            iv[i].0,
            iv[i].1,
            dv[i],
            args,
        ) + expected_registry(iv.skip(i + 1), dv.skip(i + 1), args),
        expected_git(iv.skip(i), dv.skip(i), args) == head_git(iv[i].0, iv[i].1, dv[i], args)
            + expected_git(iv.skip(i + 1), dv.skip(i + 1), args),
        expected_path(iv.skip(i), dv.skip(i), args) == head_path(iv[i].0, iv[i].1, dv[i], args)
            + expected_path(iv.skip(i + 1), dv.skip(i + 1), args),
        expected_failures(iv.skip(i), dv.skip(i), args) == head_failure(iv[i].0, dv[i], args)
            + expected_failures(iv.skip(i + 1), dv.skip(i + 1), args),
        expected_anomalies(iv.skip(i), dv.skip(i), args) == head_anomaly(iv[i].0, dv[i], args)
            + expected_anomalies(iv.skip(i + 1), dv.skip(i + 1), args),
{
    assert(iv.skip(i).len() == iv.len() - i);
    assert(dv.skip(i).len() == dv.len() - i);
    assert(iv.skip(i)[0] == iv[i]);
    assert(dv.skip(i)[0] == dv[i]);
    assert(iv.skip(i).drop_first() =~= iv.skip(i + 1));
    assert(dv.skip(i).drop_first() =~= dv.skip(i + 1));
}

pub open spec fn reg_list_view(v: Seq<(crate::cargo::PackageId, UpdateInfo<RegistryInfo>)>) -> Seq<
    (PackageIdV, UpdateInfoV<RegistryInfoV>),
> {
    Seq::new(v.len(), |i: int| (v[i].0@, v[i].1@))
}

pub open spec fn git_list_view(v: Seq<(crate::cargo::PackageId, UpdateInfo<GitInfo>)>) -> Seq<
    (PackageIdV, UpdateInfoV<GitInfoV>),
> {
    Seq::new(v.len(), |i: int| (v[i].0@, v[i].1@))
}

pub open spec fn path_list_view(v: Seq<(crate::cargo::PackageId, UpdateInfo<PathInfo>)>) -> Seq<
    (PackageIdV, UpdateInfoV<PathInfoV>),
> {
    Seq::new(v.len(), |i: int| (v[i].0@, v[i].1@))
}

pub open spec fn failures_view(v: Seq<(String, Error)>) -> Seq<(Seq<char>, Error)> {
    Seq::new(v.len(), |i: int| (v[i].0@, v[i].1))
}

/// One detection run's results: the three update mappings, the failures
/// attributed to their packages, and the anomaly reports.
pub struct CollectOutcome {
    pub updates: Updates,
    pub failures: Vec<(String, Error)>,
    pub anomalies: Vec<String>,
}

/// A package whose Git source pins a tag or an exact revision never
/// receives an update, whatever was fetched or configured.
pub proof fn lemma_pinned_refs_never_update(p: PackageIdV, d: SourceDataV, args: SelectArgs)
    requires
        data_matches(p, d, args),
        p.source_id.kind matches SourceKindV::Git(gref) && (gref is Tag || gref is Rev),
    ensures
        detection(p, d, args) is NoUpdate,
{
}

/// How many packages of the run had no update to report.
pub open spec fn count_no_update(
    iv: Seq<(PackageIdV, InstallInfoV)>,
    dv: Seq<SourceDataV>,
    args: SelectArgs,
) -> nat
    decreases iv.len(),
{
    if iv.len() == 0 || dv.len() == 0 {
        0
    } else {
        (if detection(iv[0].0, dv[0], args) is NoUpdate {
            1nat
        } else {
            0nat
        }) + count_no_update(iv.drop_first(), dv.drop_first(), args)
    }
}

/// The run is total: every package lands in exactly one of the three
/// mappings, or is accounted for as failed or as having no update.
pub proof fn lemma_partition_lengths(
    iv: Seq<(PackageIdV, InstallInfoV)>,
    dv: Seq<SourceDataV>,
    args: SelectArgs,
)
    requires
        iv.len() == dv.len(),
    ensures
        expected_registry(iv, dv, args).len() + expected_git(iv, dv, args).len() + expected_path(
            iv,
            dv,
            args,
        ).len() + expected_failures(iv, dv, args).len() + count_no_update(iv, dv, args) == iv.len(),
    decreases iv.len(),
{
    if iv.len() > 0 {
        lemma_partition_lengths(iv.drop_first(), dv.drop_first(), args);
    }
}

/// The mappings never overlap: each holds only packages of its own source
/// kind, and a package identity carries its kind.
pub proof fn lemma_partition_kinds(
    iv: Seq<(PackageIdV, InstallInfoV)>,
    dv: Seq<SourceDataV>,
    args: SelectArgs,
)
    ensures
        forall|j: int|
            0 <= j < expected_registry(iv, dv, args).len() ==> (#[trigger] expected_registry(
                iv,
                dv,
                args,
            )[j]).0.source_id.kind is Registry,
        forall|j: int|
            0 <= j < expected_git(iv, dv, args).len() ==> (#[trigger] expected_git(
                iv,
                dv,
                args,
            )[j]).0.source_id.kind is Git,
        forall|j: int|
            0 <= j < expected_path(iv, dv, args).len() ==> (#[trigger] expected_path(
                iv,
                dv,
                args,
            )[j]).0.source_id.kind is Path,
    decreases iv.len(),
{
    if iv.len() == 0 || dv.len() == 0 {
    } else {
        lemma_partition_kinds(iv.drop_first(), dv.drop_first(), args);
        let p = iv[0].0;
        let d = dv[0];
        let hr = head_registry(p, iv[0].1, d, args);
        let hg = head_git(p, iv[0].1, d, args);
        let hp = head_path(p, iv[0].1, d, args);
        assert(hr.len() > 0 ==> p.source_id.kind is Registry);
        assert(hg.len() > 0 ==> p.source_id.kind is Git);
        assert(hp.len() > 0 ==> p.source_id.kind is Path);
        assert(forall|j: int|
            0 <= j < expected_registry(iv, dv, args).len() ==> expected_registry(iv, dv, args)[j]
                == (hr + expected_registry(iv.drop_first(), dv.drop_first(), args))[j]);
    }
}

/// No package is silently dropped: whatever its detection decided appears
/// in the matching mapping or report, paired with its own install settings.
pub proof fn lemma_partition_membership(
    iv: Seq<(PackageIdV, InstallInfoV)>,
    dv: Seq<SourceDataV>,
    args: SelectArgs,
    i: int,
)
    requires
        iv.len() == dv.len(),
        0 <= i < iv.len(),
    ensures
        (match detection(iv[i].0, dv[i], args) {
            DetectionV::RegistryUpdate(v) => expected_registry(iv, dv, args).contains(
                (
                    iv[i].0,
                    UpdateInfoV { install_info: iv[i].1, extra: RegistryInfoV { version: v } },
                ),
            ),
            DetectionV::GitUpdate(g) => expected_git(iv, dv, args).contains(
                (iv[i].0, UpdateInfoV { install_info: iv[i].1, extra: g }),
            ),
            DetectionV::PathUpdate => expected_path(iv, dv, args).contains(
                (iv[i].0, UpdateInfoV { install_info: iv[i].1, extra: PathInfoV {  } }),
            ),
            DetectionV::Failed(e) => expected_failures(iv, dv, args).contains((iv[i].0.name, e)),
            DetectionV::NoUpdate => true,
        }),
    decreases i,
{
    let det = detection(iv[i].0, dv[i], args);
    if i == 0 {
        match det {
            DetectionV::RegistryUpdate(v) => {
                let x = (
                    iv[0].0,
                    UpdateInfoV { install_info: iv[0].1, extra: RegistryInfoV { version: v } },
                );
                assert(expected_registry(iv, dv, args)[0] == x);
            },
            DetectionV::GitUpdate(g) => {
                let x = (iv[0].0, UpdateInfoV { install_info: iv[0].1, extra: g });
                assert(expected_git(iv, dv, args)[0] == x);
            },
            DetectionV::PathUpdate => {
                let x = (iv[0].0, UpdateInfoV { install_info: iv[0].1, extra: PathInfoV {  } });
                assert(expected_path(iv, dv, args)[0] == x);
            },
            DetectionV::Failed(e) => {
                assert(expected_failures(iv, dv, args)[0] == (iv[0].0.name, e));
            },
            DetectionV::NoUpdate => {},
        }
    } else {
        lemma_partition_membership(iv.drop_first(), dv.drop_first(), args, i - 1);
        assert(iv.drop_first()[i - 1] == iv[i]);
        assert(dv.drop_first()[i - 1] == dv[i]);
        let ivr = iv.drop_first();
        let dvr = dv.drop_first();
        match det {
            DetectionV::RegistryUpdate(v) => {
                let x = (
                    iv[i].0,
                    UpdateInfoV { install_info: iv[i].1, extra: RegistryInfoV { version: v } },
                );
                let rest = expected_registry(ivr, dvr, args);
                let w = choose|w: int| 0 <= w < rest.len() && rest[w] == x;
                let hr = head_registry(iv[0].0, iv[0].1, dv[0], args);
                assert(expected_registry(iv, dv, args)[hr.len() + w] == x);
            },
            DetectionV::GitUpdate(g) => {
                let x = (iv[i].0, UpdateInfoV { install_info: iv[i].1, extra: g });
                let rest = expected_git(ivr, dvr, args);
                let w = choose|w: int| 0 <= w < rest.len() && rest[w] == x;
                let hg = head_git(iv[0].0, iv[0].1, dv[0], args);
                assert(expected_git(iv, dv, args)[hg.len() + w] == x);
            },
            DetectionV::PathUpdate => {
                let x = (iv[i].0, UpdateInfoV { install_info: iv[i].1, extra: PathInfoV {  } });
                let rest = expected_path(ivr, dvr, args);
                let w = choose|w: int| 0 <= w < rest.len() && rest[w] == x;
                let hp = head_path(iv[0].0, iv[0].1, dv[0], args);
                assert(expected_path(iv, dv, args)[hp.len() + w] == x);
            },
            DetectionV::Failed(e) => {
                let x = (iv[i].0.name, e);
                let rest = expected_failures(ivr, dvr, args);
                let w = choose|w: int| 0 <= w < rest.len() && rest[w] == x;
                let hf = head_failure(iv[0].0, dv[0], args);
                assert(expected_failures(iv, dv, args)[hf.len() + w] == x);
            },
            DetectionV::NoUpdate => {},
        }
    }
}

pub open spec fn opt_reg_view(o: Option<(crate::cargo::PackageId, UpdateInfo<RegistryInfo>)>) -> Seq<
    (PackageIdV, UpdateInfoV<RegistryInfoV>),
> {
    match o {
        Option::None => Seq::empty(),
        Option::Some(x) => seq![(x.0@, x.1@)],
    }
}

pub open spec fn opt_git_view(o: Option<(crate::cargo::PackageId, UpdateInfo<GitInfo>)>) -> Seq<
    (PackageIdV, UpdateInfoV<GitInfoV>),
> {
    match o {
        Option::None => Seq::empty(),
        Option::Some(x) => seq![(x.0@, x.1@)],
    }
}

pub open spec fn opt_path_view(o: Option<(crate::cargo::PackageId, UpdateInfo<PathInfo>)>) -> Seq<
    (PackageIdV, UpdateInfoV<PathInfoV>),
> {
    match o {
        Option::None => Seq::empty(),
        Option::Some(x) => seq![(x.0@, x.1@)],
    }
}

pub open spec fn opt_fail_view(o: Option<(String, Error)>) -> Seq<(Seq<char>, Error)> {
    match o {
        Option::None => Seq::empty(),
        Option::Some(x) => seq![(x.0@, x.1)],
    }
}

pub open spec fn opt_anom_view(o: Option<String>) -> Seq<Seq<char>> {
    match o {
        Option::None => Seq::empty(),
        Option::Some(x) => seq![x@],
    }
}

/// Visits every installed package exactly once, runs the detector of its
/// source kind over the observation gathered for it, and partitions the
/// results: one ordered mapping per source kind, plus the failures and
/// anomalies attributed to their packages.
pub fn collect_updates(info: &CrateListingV2, data: &Vec<SourceData>, args: &SelectArgs) -> (r:
    CollectOutcome)
    requires
        info.wf(),
        data@.len() == info.installs@.len(),
        forall|i: int|
            0 <= i < data@.len() ==> data_matches(
                installs_view(info.installs@)[i].0,
                data_view(data@)[i],
                *args,
            ),
    ensures
        reg_list_view(r.updates.registry@) == expected_registry(
            installs_view(info.installs@),
            data_view(data@),
            *args,
        ),
        git_list_view(r.updates.git@) == expected_git(
            installs_view(info.installs@),
            data_view(data@),
            *args,
        ),
        path_list_view(r.updates.path@) == expected_path(
            installs_view(info.installs@),
            data_view(data@),
            *args,
        ),
        failures_view(r.failures@) == expected_failures(
            installs_view(info.installs@),
            data_view(data@),
            *args,
        ),
        r.anomalies.deep_view() == expected_anomalies(
            installs_view(info.installs@),
            data_view(data@),
            *args,
        ),
{
    let ghost iv = installs_view(info.installs@);
    let ghost dv = data_view(data@);
    let mut registry_out: Vec<(crate::cargo::PackageId, UpdateInfo<RegistryInfo>)> = Vec::new();
    let mut git_out: Vec<(crate::cargo::PackageId, UpdateInfo<GitInfo>)> = Vec::new();
    let mut path_out: Vec<(crate::cargo::PackageId, UpdateInfo<PathInfo>)> = Vec::new();
    let mut failures: Vec<(String, Error)> = Vec::new();
    let mut anomalies: Vec<String> = Vec::new();
    proof {
        assert(iv.skip(0) =~= iv);
        assert(dv.skip(0) =~= dv);
        assert(reg_list_view(registry_out@) =~= Seq::<
            (PackageIdV, UpdateInfoV<RegistryInfoV>),
        >::empty());
        assert(git_list_view(git_out@) =~= Seq::<(PackageIdV, UpdateInfoV<GitInfoV>)>::empty());
        assert(path_list_view(path_out@) =~= Seq::<(PackageIdV, UpdateInfoV<PathInfoV>)>::empty());
        assert(failures_view(failures@) =~= Seq::<(Seq<char>, Error)>::empty());
        assert(anomalies.deep_view() =~= Seq::<Seq<char>>::empty());
        assert(reg_list_view(registry_out@) + expected_registry(iv, dv, *args) =~= expected_registry(
            iv,
            dv,
            *args,
        ));
        assert(git_list_view(git_out@) + expected_git(iv, dv, *args) =~= expected_git(
            iv,
            dv,
            *args,
        ));
        assert(path_list_view(path_out@) + expected_path(iv, dv, *args) =~= expected_path(
            iv,
            dv,
            *args,
        ));
        assert(failures_view(failures@) + expected_failures(iv, dv, *args) =~= expected_failures(
            iv,
            dv,
            *args,
        ));
        assert(anomalies.deep_view() + expected_anomalies(iv, dv, *args) =~= expected_anomalies(
            iv,
            dv,
            *args,
        ));
    }
    let mut i: usize = 0;
    while i < info.installs.len()
        invariant
            0 <= i <= info.installs.len(),
            iv == installs_view(info.installs@),
            dv == data_view(data@),
            iv.len() == info.installs.len(),
            dv.len() == iv.len(),
            info.wf(),
            forall|k: int| 0 <= k < dv.len() ==> data_matches(iv[k].0, dv[k], *args),
            expected_registry(iv, dv, *args) == reg_list_view(registry_out@) + expected_registry(
                iv.skip(i as int),
                dv.skip(i as int),
                *args,
            ),
            expected_git(iv, dv, *args) == git_list_view(git_out@) + expected_git(
                iv.skip(i as int),
                dv.skip(i as int),
                *args,
            ),
            expected_path(iv, dv, *args) == path_list_view(path_out@) + expected_path(
                iv.skip(i as int),
                dv.skip(i as int),
                *args,
            ),
            expected_failures(iv, dv, *args) == failures_view(failures@) + expected_failures(
                iv.skip(i as int),
                dv.skip(i as int),
                *args,
            ),
            expected_anomalies(iv, dv, *args) == anomalies.deep_view() + expected_anomalies(
                iv.skip(i as int),
                dv.skip(i as int),
                *args,
            ),
        decreases info.installs.len() - i,
    {
        proof {
            lemma_expected_step(iv, dv, *args, i as int);
            assert(iv[i as int] == (info.installs@[i as int].0@, info.installs@[i as int].1@));
            assert(dv[i as int] == data@[i as int]@);
            assert(data_matches(iv[i as int].0, dv[i as int], *args));
            assert(iv[i as int].0.wf());
        }
        let entry = &info.installs[i];
        let p = &entry.0;
        let inf = &entry.1;
        let mut reg_add: Option<(crate::cargo::PackageId, UpdateInfo<RegistryInfo>)> = None;
        let mut git_add: Option<(crate::cargo::PackageId, UpdateInfo<GitInfo>)> = None;
        let mut path_add: Option<(crate::cargo::PackageId, UpdateInfo<PathInfo>)> = None;
        let mut fail_add: Option<(String, Error)> = None;
        let mut anom_add: Option<String> = None;
        match (&p.source_id.kind, &data[i]) {
            (SourceKind::Registry, SourceData::Registry { latest }) => {
                proof {
                    assert(dv[i as int] == SourceDataV::Registry(opt_latest_view(*latest)));
                }
                match crate::registry::check_update(p, latest, args.pre) {
                    Ok(Some(ri)) => {
                        proof {
                            assert(detection(iv[i as int].0, dv[i as int], *args)
                                == DetectionV::RegistryUpdate(ri@.version));
                        }
                        let pair = (p.duplicate(), UpdateInfo::new(inf.duplicate(), ri));
                        proof {
                            assert(pair.1@ =~= (UpdateInfoV {
                                install_info: iv[i as int].1,
                                extra: RegistryInfoV { version: pair.1.extra@.version },
                            }));
                        }
                        reg_add = Some(pair);
                    },
                    Ok(None) => {
                        proof {
                            assert(detection(iv[i as int].0, dv[i as int], *args)
                                is NoUpdate);
                        }
                    },
                    Err(e) => {
                        proof {
                            assert(detection(iv[i as int].0, dv[i as int], *args)
                                == DetectionV::Failed(e));
                        }
                        fail_add = Some((p.name.clone(), e));
                    },
                }
            },
            (SourceKind::Git(gref), SourceData::Git { outcome }) => {
                let plan = plan_check(gref, &p.source_id.precise, args.git);
                proof {
                    assert(dv[i as int] matches SourceDataV::Git(_));
                }
                match (plan, outcome) {
                    (Some(plan), Some(Ok(obs))) => {
                        let (changes, found) = git_changes(&obs.ancestry, &plan.old_commit, &obs.files);
                        if !found && obs.ancestry.len() > 0 {
                            proof {
                                assert(is_anomaly(iv[i as int].0, dv[i as int], *args));
                            }
                            anom_add = Some(p.name.clone());
                        } else {
                            proof {
                                assert(!is_anomaly(iv[i as int].0, dv[i as int], *args));
                            }
                        }
                        let ghost planv = plan@;
                        let ghost obsv = obs@;
                        match complete_check(plan, obs.new_commit.duplicate(), changes) {
                            Some(gi) => {
                                proof {
                                    assert(gi@ =~= (GitInfoV {
                                        label: planv.label,
                                        old_commit: planv.old_commit,
                                        new_commit: obsv.new_commit,
                                        changes,
                                        target: planv.target,
                                    }));
                                    assert(detection(iv[i as int].0, dv[i as int], *args)
                                        == DetectionV::GitUpdate(gi@));
                                }
                                let pair = (p.duplicate(), UpdateInfo::new(inf.duplicate(), gi));
                                proof {
                                    assert(pair.1@ =~= (UpdateInfoV {
                                        install_info: iv[i as int].1,
                                        extra: pair.1.extra@,
                                    }));
                                }
                                git_add = Some(pair);
                            },
                            None => {
                                proof {
                                    assert(detection(iv[i as int].0, dv[i as int], *args)
                                        is NoUpdate);
                                }
                            },
                        }
                    },
                    (Some(_), Some(Err(f))) => {
                        proof {
                            assert(detection(iv[i as int].0, dv[i as int], *args)
                                == DetectionV::Failed(git_failure_error(*f)));
                        }
                        let e = match f {
                            GitFailure::Repository => Error::RepositoryAccessFailure,
                            GitFailure::Network => Error::NetworkFailure,
                        };
                        fail_add = Some((p.name.clone(), e));
                    },
                    (None, None) => {
                        proof {
                            assert(detection(iv[i as int].0, dv[i as int], *args)
                                is NoUpdate);
                            assert(!is_anomaly(iv[i as int].0, dv[i as int], *args));
                        }
                    },
                    (Some(_), None) => {
                        proof {
                            assert(false);
                        }
                        vstd::pervasive::unreached::<()>()
                    },
                    (None, Some(_)) => {
                        proof {
                            assert(false);
                        }
                        vstd::pervasive::unreached::<()>()
                    },
                }
            },
            (SourceKind::Path, SourceData::Path) => {
                match crate::path::check_update(p, args.path) {
                    Ok(Some(pi)) => {
                        proof {
                            assert(detection(iv[i as int].0, dv[i as int], *args)
                                is PathUpdate);
                        }
                        path_add = Some((p.duplicate(), UpdateInfo::new(inf.duplicate(), pi)));
                    },
                    Ok(None) => {
                        proof {
                            assert(detection(iv[i as int].0, dv[i as int], *args)
                                is NoUpdate);
                        }
                    },
                    Err(_) => {
                        proof {
                            assert(false);
                        }
                        vstd::pervasive::unreached::<()>()
                    },
                }
            },
            _ => {
                proof {
                    assert(false);
                }
                vstd::pervasive::unreached::<()>()
            },
        }
        proof {
            assert(opt_reg_view(reg_add) =~= head_registry(
                iv[i as int].0,
                iv[i as int].1,
                dv[i as int],
                *args,
            ));
            assert(opt_git_view(git_add) =~= head_git(
                iv[i as int].0,
                iv[i as int].1,
                dv[i as int],
                *args,
            ));
            assert(opt_path_view(path_add) =~= head_path(
                iv[i as int].0,
                iv[i as int].1,
                dv[i as int],
                *args,
            ));
            assert(opt_fail_view(fail_add) =~= head_failure(iv[i as int].0, dv[i as int], *args));
            assert(opt_anom_view(anom_add) =~= head_anomaly(iv[i as int].0, dv[i as int], *args));
        }
        let ghost prev_reg = reg_list_view(registry_out@);
        let ghost prev_git = git_list_view(git_out@);
        let ghost prev_path = path_list_view(path_out@);
        let ghost prev_fail = failures_view(failures@);
        let ghost prev_anom = anomalies.deep_view();
        let ghost reg_head = opt_reg_view(reg_add);
        let ghost git_head = opt_git_view(git_add);
        let ghost path_head = opt_path_view(path_add);
        let ghost fail_head = opt_fail_view(fail_add);
        let ghost anom_head = opt_anom_view(anom_add);
        match reg_add {
            Some(x) => registry_out.push(x),
            None => {},
        }
        match git_add {
            Some(x) => git_out.push(x),
            None => {},
        }
        match path_add {
            Some(x) => path_out.push(x),
            None => {},
        }
        match fail_add {
            Some(x) => failures.push(x),
            None => {},
        }
        match anom_add {
            Some(x) => anomalies.push(x),
            None => {},
        }
        proof {
            assert(reg_list_view(registry_out@) =~= prev_reg + reg_head);
            assert(git_list_view(git_out@) =~= prev_git + git_head);
            assert(path_list_view(path_out@) =~= prev_path + path_head);
            assert(failures_view(failures@) =~= prev_fail + fail_head);
            assert(anomalies.deep_view() =~= prev_anom + anom_head);
            assert(prev_reg + reg_head + expected_registry(iv.skip(i + 1), dv.skip(i + 1), *args)
                =~= prev_reg + expected_registry(iv.skip(i as int), dv.skip(i as int), *args));
            assert(prev_git + git_head + expected_git(iv.skip(i + 1), dv.skip(i + 1), *args) =~=
                prev_git + expected_git(iv.skip(i as int), dv.skip(i as int), *args));
            assert(prev_path + path_head + expected_path(iv.skip(i + 1), dv.skip(i + 1), *args) =~=
                prev_path + expected_path(iv.skip(i as int), dv.skip(i as int), *args));
            assert(prev_fail + fail_head + expected_failures(iv.skip(i + 1), dv.skip(i + 1), *args)
                =~= prev_fail + expected_failures(iv.skip(i as int), dv.skip(i as int), *args));
            assert(prev_anom + anom_head + expected_anomalies(iv.skip(i + 1), dv.skip(i + 1), *args)
                =~= prev_anom + expected_anomalies(iv.skip(i as int), dv.skip(i as int), *args));
        }
        i = i + 1;
    }
    proof {
        assert(iv.skip(iv.len() as int).len() == 0);
        assert(dv.skip(dv.len() as int).len() == 0);
        assert(reg_list_view(registry_out@) + expected_registry(
            iv.skip(iv.len() as int),
            dv.skip(dv.len() as int),
            *args,
        ) =~= reg_list_view(registry_out@));
        assert(git_list_view(git_out@) + expected_git(
            iv.skip(iv.len() as int),
            dv.skip(dv.len() as int),
            *args,
        ) =~= git_list_view(git_out@));
        assert(path_list_view(path_out@) + expected_path(
            iv.skip(iv.len() as int),
            dv.skip(dv.len() as int),
            *args,
        ) =~= path_list_view(path_out@));
        assert(failures_view(failures@) + expected_failures(
            iv.skip(iv.len() as int),
            dv.skip(dv.len() as int),
            *args,
        ) =~= failures_view(failures@));
        assert(anomalies.deep_view() + expected_anomalies(
            iv.skip(iv.len() as int),
            dv.skip(dv.len() as int),
            *args,
        ) =~= anomalies.deep_view());
    }
    CollectOutcome {
        updates: Updates { registry: registry_out, git: git_out, path: path_out },
        failures,
        anomalies,
    }
}

} // verus!
