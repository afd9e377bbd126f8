//! Where a release archive is fetched from, and what its unpacked layout must be.
use crate::error::ForkError;
use vstd::prelude::*;
use vstd::string::StringExecFns;

verus! {

/// The download address of the release archive of `name` at `version`.
pub open spec fn archive_url_spec(name: Seq<char>, version: Seq<char>) -> Seq<char> {
    "https://static.crates.io/crates/"@ + name + "/"@ + name + "-"@ + version + ".crate"@
}

/// The download address of the release archive of `name` at `version`.
pub fn crate_archive_url(name: &str, version: &str) -> (r: String)
    ensures
        r@ == archive_url_spec(name@, version@),
{
    let mut url = String::from_str("https://static.crates.io/crates/");
    url.append(name);
    url.append("/");
    url.append(name);
    url.append("-");
    url.append(version);
    url.append(".crate");
    url
}

/// Whether an HTTP status code reports success.
pub open spec fn is_success_status(status: u16) -> bool {
    200 <= status <= 299
}

/// Accepts a download whose response status reports success.
pub fn check_fetch_status(status: u16) -> (r: Result<(), ForkError>)
    ensures
        r is Ok <==> is_success_status(status),
        r is Err ==> r == Err::<(), ForkError>(ForkError::NetworkError),
{
    if 200 <= status && status <= 299 {
        Ok(())
    } else {
        Err(ForkError::NetworkError)
    }
}

/// One entry at the top level of an unpacked archive.
pub struct TopLevelEntry {
    pub name: String,
    pub is_dir: bool,
}

/// The name of the single top-level directory of an unpacked archive, given
/// its top-level entries; `MalformedArchiveLayout` unless there is exactly one
/// entry and it is a directory.
pub fn archive_root(entries: Vec<TopLevelEntry>) -> (r: Result<String, ForkError>)
    ensures
        (entries@.len() == 1 && entries@[0].is_dir) ==> (r matches Ok(root) && root@ == entries@[0].name@),
        !(entries@.len() == 1 && entries@[0].is_dir) ==> r == Err::<String, ForkError>(
            ForkError::MalformedArchiveLayout,
        ),
{
    let mut entries = entries;
    if entries.len() == 1 {
        match entries.pop() {
            Some(root) => {
                if root.is_dir {
                    Ok(root.name)
                } else {
                    Err(ForkError::MalformedArchiveLayout)
                }
            },
            None => Err(ForkError::MalformedArchiveLayout),
        }
    } else {
        Err(ForkError::MalformedArchiveLayout)
    }
}

} // verus!
