//! The version-control provenance that a release archive may record.
use crate::error::ForkError;
use vstd::prelude::*;
use vstd::string::StringExecFns;

verus! {

/// The base name of the provenance file inside a release archive.
pub const VCS_INFO_FILE_NAME: &'static str = ".cargo_vcs_info.json";

/// The last component of a path, if it has one that names a file or directory.
pub uninterp spec fn path_file_name(p: Seq<char>) -> Option<Seq<char>>;

/// Relies on std's `Path::file_name`: the final component of the path, none when
/// the path ends in `..` or is a root or empty.
#[verifier::external_body]
fn file_name(path: &str) -> (r: Option<String>)
    ensures
        r matches Some(n) ==> path_file_name(path@) == Some(n@),
        r is None ==> path_file_name(path@) is None,
{
    std::path::Path::new(path).file_name().map(|n| n.to_string_lossy().into_owned())
}

/// Whether a base name is exactly the provenance file's name.
pub fn is_vcs_info_file_name(name: &str) -> (r: bool)
    ensures
        r == (name@ == VCS_INFO_FILE_NAME@),
{
    let given = String::from_str(name);
    let expected = String::from_str(VCS_INFO_FILE_NAME);
    given == expected
}

/// Whether an archive entry at `path` is the provenance file: its base name is
/// exactly the provenance file's name.  An entry path with no final component
/// that names a file or directory is not a valid archive entry.
pub fn is_vcs_info_entry(path: &str) -> (r: Result<bool, ForkError>)
    ensures
        match path_file_name(path@) {
            Some(n) => r == Ok::<bool, ForkError>(n == VCS_INFO_FILE_NAME@),
            None => r == Err::<bool, ForkError>(ForkError::ArchiveFormatError),
        },
{
    match file_name(path) {
        Some(n) => Ok(is_vcs_info_file_name(n.as_str())),
        None => Err(ForkError::ArchiveFormatError),
    }
}

/// What to do with the next entry of an archive while looking for the provenance file.
#[derive(Debug, Clone, Copy, PartialEq, Eq, Structural)]
pub enum ScanAction {
    /// Not the provenance file: go on to the next entry.
    Skip,
    /// The provenance file: extract and read this entry.
    Extract,
    /// The provenance file was already found: read no further.
    Stop,
}

/// The state of a scan of archive entries for the provenance file: only the
/// first match is used.
pub struct VcsScan {
    pub found: bool,
}

impl VcsScan {
    /// A scan that has not found the provenance file yet.
    pub fn new() -> (r: VcsScan)
        ensures
            !r.found,
    {
        VcsScan { found: false }
    }

    /// The action for the next entry, at `path`.  Once the provenance file has
    /// been found every later entry gets `Stop`; before that the first entry
    /// whose base name matches gets `Extract` and ends the search.
    pub fn on_entry(&mut self, path: &str) -> (r: Result<ScanAction, ForkError>)
        ensures
            old(self).found ==> r == Ok::<ScanAction, ForkError>(ScanAction::Stop) && final(self).found,
            !old(self).found ==> match path_file_name(path@) {
                Some(n) => if n == VCS_INFO_FILE_NAME@ {
                    r == Ok::<ScanAction, ForkError>(ScanAction::Extract) && final(self).found
                } else {
                    r == Ok::<ScanAction, ForkError>(ScanAction::Skip) && !final(self).found
                },
                None => r == Err::<ScanAction, ForkError>(ForkError::ArchiveFormatError) && !final(self).found,
            },
    {
        if self.found {
            return Ok(ScanAction::Stop);
        }
        match is_vcs_info_entry(path) {
            Ok(true) => {
                self.found = true;
                Ok(ScanAction::Extract)
            },
            Ok(false) => Ok(ScanAction::Skip),
            Err(e) => Err(e),
        }
    }
}

/// The `git` section of a provenance file, as read.
pub struct GitSection {
    pub sha1: Option<String>,
}

/// A provenance file as read: each field may be missing.
pub struct VcsMetadata {
    pub git: Option<GitSection>,
    pub path_in_vcs: Option<String>,
}

/// The revision that produced a release, and where in the repository the
/// package lies, when the provenance file says.
pub struct VcsInfo {
    pub hash: String,
    pub path_in_vcs: Option<String>,
}

/// The path that stands for the repository root.
pub open spec fn repository_root() -> Seq<char> {
    "./"@
}

impl VcsInfo {
    /// The package's directory relative to the repository root.
    pub open spec fn subpath_spec(&self) -> Seq<char> {
        match self.path_in_vcs {
            Some(p) => p@,
            None => repository_root(),
        }
    }

    /// The package's directory relative to the repository root: the recorded
    /// path, or the root when none was recorded.
    pub fn subpath(&self) -> (r: String)
        ensures
            r@ == self.subpath_spec(),
    {
        match &self.path_in_vcs {
            Some(p) => p.clone(),
            None => String::from_str("./"),
        }
    }
}

/// The revision recorded by a provenance file, if it records one.
pub open spec fn recorded_revision(m: VcsMetadata) -> Option<String> {
    match m.git {
        Some(g) => g.sha1,
        None => None,
    }
}

/// What a provenance file yields: its revision and its recorded path, or
/// `MissingVcsRevision` when it records no revision.
pub fn vcs_info_from_metadata(m: VcsMetadata) -> (r: Result<VcsInfo, ForkError>)
    ensures
        match recorded_revision(m) {
            Some(h) => r matches Ok(v) && v.hash@ == h@ && v.path_in_vcs == m.path_in_vcs,
            None => r == Err::<VcsInfo, ForkError>(ForkError::MissingVcsRevision),
        },
{
    let VcsMetadata { git, path_in_vcs } = m;
    match git {
        Some(GitSection { sha1: Some(hash) }) => Ok(VcsInfo { hash, path_in_vcs }),
        _ => Err(ForkError::MissingVcsRevision),
    }
}

/// The provenance of a release from what a scan of its archive found: no
/// information when the archive holds no provenance file, else what the first
/// such file yields.
pub fn extract_vcs_info(found: Option<VcsMetadata>) -> (r: Result<Option<VcsInfo>, ForkError>)
    ensures
        match found {
            None => r matches Ok(None),
            Some(m) => match recorded_revision(m) {
                Some(h) => r matches Ok(Some(v)) && v.hash@ == h@ && v.path_in_vcs == m.path_in_vcs,
                None => r == Err::<Option<VcsInfo>, ForkError>(ForkError::MissingVcsRevision),
            },
        },
{
    match found {
        None => Ok(None),
        Some(m) => match vcs_info_from_metadata(m) {
            Ok(v) => Ok(Some(v)),
            Err(e) => Err(e),
        },
    }
}

} // verus!
