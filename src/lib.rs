//! Replace one dependency of a workspace with a local copy of its source,
//! and report what the replacement changed in the resolved dependency graph.
pub mod acquire;
pub mod archive;
pub mod error;
pub mod graph;
pub mod manifest;
pub mod vcs_info;

pub use acquire::{
    check_destination, checkout_dir_name, declared_repository, find_package, package_dir_in_repo,
    revision_failure, plan_acquisition, AcquirePlan, SourceKind, SubpathPlan,
};
pub use archive::{archive_root, check_fetch_status, crate_archive_url, TopLevelEntry};
pub use error::ForkError;
pub use graph::{diff_deps, lemma_diff_of_same_graph_is_empty, DepNode, DependencyGraph, NodeChange};
pub use manifest::{
    lemma_patch_changes_only_override, lemma_patch_twice_keeps_one_entry, manifest_insert_patch,
    parse_manifest,
};
pub use vcs_info::{
    extract_vcs_info, is_vcs_info_entry, is_vcs_info_file_name, vcs_info_from_metadata, GitSection, ScanAction, VcsInfo, VcsMetadata, VcsScan,
    VCS_INFO_FILE_NAME,
};
