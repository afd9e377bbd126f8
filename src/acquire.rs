//! Choosing how the dependency's source is obtained, and where it lies once obtained.
use crate::error::ForkError;
use crate::graph::texts;
use crate::vcs_info::VcsInfo;
use vstd::prelude::*;
use vstd::string::StringExecFns;

verus! {

/// Where the local copy of the dependency comes from.
#[derive(Debug, Clone, Copy, PartialEq, Eq, Structural)]
pub enum SourceKind {
    /// The contents of the published release archive.
    ArchiveSnapshot,
    /// The head revision of the upstream repository.
    VcsHead,
    /// The upstream revision that the release was published from.
    VcsPinnedToRelease,
}

/// Where the package lies inside a checked-out repository.
pub enum SubpathPlan {
    /// At the repository root.
    RepositoryRoot,
    /// At the path that the release recorded.
    Recorded(String),
    /// Where the checked-out workspace's own metadata puts the package.
    FromWorkspaceMetadata,
}

/// The work that obtains the source.
pub enum AcquirePlan {
    /// Unpack the release archive and move its single top-level directory into place.
    UnpackArchive,
    /// Check out `revision` of the upstream repository and use the package at `subpath`.
    Checkout { revision: String, subpath: SubpathPlan },
}

/// The revision name that stands for the repository's head.
pub open spec fn head_revision() -> Seq<char> {
    "HEAD"@
}

/// How to obtain the source of the given kind, given the release's provenance
/// (`None` when the archive records none).
pub fn plan_acquisition(kind: SourceKind, vcs: Option<VcsInfo>) -> (r: Result<AcquirePlan, ForkError>)
    ensures
        kind == SourceKind::ArchiveSnapshot ==> r matches Ok(AcquirePlan::UnpackArchive),
        kind == SourceKind::VcsHead ==> (r matches Ok(AcquirePlan::Checkout { revision, subpath })
            && revision@ == head_revision() && subpath is RepositoryRoot),
        kind == SourceKind::VcsPinnedToRelease ==> match vcs {
            None => r == Err::<AcquirePlan, ForkError>(ForkError::NoVcsInfoForRelease),
            Some(v) => r matches Ok(AcquirePlan::Checkout { revision, subpath }) && revision@ == v.hash@
                && match v.path_in_vcs {
                    Some(p) => subpath matches SubpathPlan::Recorded(s) && s@ == p@,
                    None => subpath is FromWorkspaceMetadata,
                },
        },
{
    match kind {
        SourceKind::ArchiveSnapshot => Ok(AcquirePlan::UnpackArchive),
        SourceKind::VcsHead => Ok(AcquirePlan::Checkout {
            revision: String::from_str("HEAD"),
            subpath: SubpathPlan::RepositoryRoot,
        }),
        SourceKind::VcsPinnedToRelease => match vcs {
            None => Err(ForkError::NoVcsInfoForRelease),
            Some(v) => {
                let VcsInfo { hash, path_in_vcs } = v;
                let subpath = match path_in_vcs {
                    Some(p) => SubpathPlan::Recorded(p),
                    None => SubpathPlan::FromWorkspaceMetadata,
                };
                Ok(AcquirePlan::Checkout { revision: hash, subpath })
            },
        },
    }
}

/// The repository that a registry entry declares; `NoRepositoryDeclared` when it declares none.
pub fn declared_repository(repository: Option<String>) -> (r: Result<String, ForkError>)
    ensures
        match repository {
            Some(u) => r matches Ok(v) && v@ == u@,
            None => r == Err::<String, ForkError>(ForkError::NoRepositoryDeclared),
        },
{
    match repository {
        Some(u) => Ok(u),
        None => Err(ForkError::NoRepositoryDeclared),
    }
}

/// The failure to report when a revision cannot be resolved: `RevisionNotFound`
/// when the repository has no such revision, none (the resolver's own error is
/// passed on unchanged) for any other failure.
pub fn revision_failure(not_found: bool) -> (r: Option<ForkError>)
    ensures
        not_found ==> r == Some(ForkError::RevisionNotFound),
        !not_found ==> r is None,
{
    if not_found {
        Some(ForkError::RevisionNotFound)
    } else {
        None
    }
}

/// The parent directory of a path.
pub uninterp spec fn path_parent(p: Seq<char>) -> Option<Seq<char>>;

/// A path made relative to a base path, when the base is one of its prefixes.
pub uninterp spec fn path_relative_to(p: Seq<char>, base: Seq<char>) -> Option<Seq<char>>;

/// The segments of the path of a URL, when the text parses as a URL that has them.
pub uninterp spec fn url_segments(url: Seq<char>) -> Option<Seq<Seq<char>>>;

/// Relies on std's `Path::parent`: the path without its final component, none
/// when the path is a root or empty.
#[verifier::external_body]
fn parent_dir(path: &str) -> (r: Option<String>)
    ensures
        r matches Some(d) ==> path_parent(path@) == Some(d@),
        r is None ==> path_parent(path@) is None,
{
    std::path::Path::new(path).parent().map(|d| d.to_string_lossy().into_owned())
}

/// Relies on std's `Path::strip_prefix`: the path relative to `base`, none when
/// `base` is not a prefix of it, component by component.
#[verifier::external_body]
fn strip_base(path: &str, base: &str) -> (r: Option<String>)
    ensures
        r matches Some(d) ==> path_relative_to(path@, base@) == Some(d@),
        r is None ==> path_relative_to(path@, base@) is None,
{
    std::path::Path::new(path).strip_prefix(base).ok().map(|d| d.to_string_lossy().into_owned())
}

/// Relies on the url crate's `Url::parse` and `Url::path_segments` (through
/// reqwest): the path segments of the URL, none when the text is not a URL or
/// its URL cannot be a base.
#[verifier::external_body]
fn path_segments_of(url: &str) -> (r: Option<Vec<String>>)
    ensures
        r matches Some(v) ==> url_segments(url@) == Some(texts(v@)),
        r is None ==> url_segments(url@) is None,
{
    reqwest::Url::parse(url).ok().and_then(|u| u.path_segments().map(|s| s.map(|x| x.to_string()).collect()))
}

/// The directory of a package inside a checked-out repository, relative to the
/// repository root, from the path of the package's manifest;
/// `PackageNotFound` when the manifest does not lie inside the checkout.
pub fn package_dir_in_repo(manifest_path: &str, checkout_dir: &str) -> (r: Result<String, ForkError>)
    ensures
        match path_parent(manifest_path@) {
            Some(d) => match path_relative_to(d, checkout_dir@) {
                Some(rel) => r matches Ok(s) && s@ == rel,
                None => r == Err::<String, ForkError>(ForkError::PackageNotFound),
            },
            None => r == Err::<String, ForkError>(ForkError::PackageNotFound),
        },
{
    match parent_dir(manifest_path) {
        Some(d) => match strip_base(d.as_str(), checkout_dir) {
            Some(rel) => Ok(rel),
            None => Err(ForkError::PackageNotFound),
        },
        None => Err(ForkError::PackageNotFound),
    }
}

/// The last segment of a sequence that is not empty.
pub open spec fn last_nonempty(s: Seq<Seq<char>>) -> Option<Seq<char>>
    decreases s.len(),
{
    if s.len() == 0 {
        None
    } else if s.last().len() > 0 {
        Some(s.last())
    } else {
        last_nonempty(s.drop_last())
    }
}

/// The default name of a checkout directory: the last non-empty segment of the
/// repository URL's path (`https://github.com/o/foo/` gives `foo`), none when
/// the URL has no such segment.
pub fn checkout_dir_name(repo_url: &str) -> (r: Option<String>)
    ensures
        match url_segments(repo_url@) {
            Some(segs) => match last_nonempty(segs) {
                Some(n) => r matches Some(s) && s@ == n,
                None => r is None,
            },
            None => r is None,
        },
{
    let segs = match path_segments_of(repo_url) {
        Some(v) => v,
        None => {
            return None;
        },
    };
    let ghost all = texts(segs@);
    let mut i: usize = segs.len();
    assert(all.take(i as int) == all);
    while i > 0
        invariant
            i <= segs@.len(),
            all == texts(segs@),
            url_segments(repo_url@) == Some(all),
            last_nonempty(all) == last_nonempty(all.take(i as int)),
        decreases i,
    {
        assert(all.take(i as int).drop_last() == all.take(i - 1));
        assert(all.take(i as int).last() == segs@[i - 1]@);
        if !segs[i - 1].as_str().is_empty() {
            assert(last_nonempty(all.take(i as int)) == Some(segs@[i - 1]@));
            let name = segs[i - 1].clone();
            assert(name@ == segs@[i - 1]@);
            return Some(name);
        }
        i -= 1;
    }
    assert(all.take(0) == Seq::<Seq<char>>::empty());
    None
}

/// Refuses a destination that is already occupied: an existing override
/// directory is never overwritten.
pub fn check_destination(occupied: bool) -> (r: Result<(), ForkError>)
    ensures
        r is Ok <==> !occupied,
        r is Err ==> r == Err::<(), ForkError>(ForkError::DestinationExists),
{
    if occupied {
        Err(ForkError::DestinationExists)
    } else {
        Ok(())
    }
}

/// The indices of the packages named `name`.
pub open spec fn matching(names: Seq<String>, name: Seq<char>) -> Set<int> {
    Set::new(|i: int| 0 <= i < names.len() && names[i]@ == name)
}

/// The one package named `name` among the packages with the given names:
/// `PackageNotFound` when none is, `AmbiguousPackageMatch` when several are.
pub fn find_package(names: &Vec<String>, name: &str) -> (r: Result<usize, ForkError>)
    ensures
        match r {
            Ok(i) => i < names@.len() && names@[i as int]@ == name@ && matching(names@, name@) == set![i as int],
            Err(e) => {
                ||| e == ForkError::PackageNotFound && matching(names@, name@).is_empty()
                ||| e == ForkError::AmbiguousPackageMatch && exists|a: int, b: int|
                    a != b && #[trigger] matching(names@, name@).contains(a) && #[trigger] matching(names@, name@).contains(b)
            },
        },
{
    let target = String::from_str(name);
    let mut found: Option<usize> = None;
    let mut i: usize = 0;
    while i < names.len()
        invariant
            i <= names@.len(),
            target@ == name@,
            match found {
                None => forall|j: int| 0 <= j < i ==> names@[j]@ != name@,
                Some(k) => k < i && names@[k as int]@ == name@ && forall|j: int| 0 <= j < i && j != k ==> names@[j]@ != name@,
            },
        decreases names@.len() - i,
    {
        if names[i] == target {
            match found {
                Some(k) => {
                    assert(matching(names@, name@).contains(k as int));
                    assert(matching(names@, name@).contains(i as int));
                    return Err(ForkError::AmbiguousPackageMatch);
                },
                None => {
                    found = Some(i);
                },
            }
        }
        i += 1;
    }
    match found {
        None => {
            assert(matching(names@, name@) =~= Set::<int>::empty());
            Err(ForkError::PackageNotFound)
        },
        Some(k) => {
            assert(matching(names@, name@) =~= set![k as int]);
            Ok(k)
        },
    }
}

} // verus!
