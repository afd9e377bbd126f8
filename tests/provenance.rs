use cargo_fork::{
    extract_vcs_info, is_vcs_info_entry, is_vcs_info_file_name, plan_acquisition, vcs_info_from_metadata, AcquirePlan,
    ForkError, GitSection, ScanAction, SourceKind, SubpathPlan, VcsMetadata, VcsScan, VCS_INFO_FILE_NAME,
};

fn metadata(sha1: Option<&str>, path: Option<&str>) -> VcsMetadata {
    VcsMetadata {
        git: Some(GitSection { sha1: sha1.map(|s| s.to_string()) }),
        path_in_vcs: path.map(|p| p.to_string()),
    }
}

#[test]
fn provenance_with_path_yields_hash_and_path() {
    let info = extract_vcs_info(Some(metadata(Some("abcd1234"), Some("crates/foo"))))
        .unwrap()
        .unwrap();
    assert_eq!(info.hash, "abcd1234");
    assert_eq!(info.path_in_vcs.as_deref(), Some("crates/foo"));
    assert_eq!(info.subpath(), "crates/foo");
}

#[test]
fn provenance_without_path_defaults_to_root() {
    let info = vcs_info_from_metadata(metadata(Some("0123abcd"), None)).unwrap();
    assert_eq!(info.hash, "0123abcd");
    assert_eq!(info.path_in_vcs, None);
    assert_eq!(info.subpath(), "./");
}

#[test]
fn archive_without_provenance_gives_no_info() {
    assert!(matches!(extract_vcs_info(None), Ok(None)));
}

#[test]
fn provenance_without_sha1_is_missing_revision() {
    assert!(matches!(
        extract_vcs_info(Some(metadata(None, Some("crates/foo")))),
        Err(ForkError::MissingVcsRevision)
    ));
}

#[test]
fn provenance_without_git_section_is_missing_revision() {
    let m = VcsMetadata { git: None, path_in_vcs: None };
    assert!(matches!(vcs_info_from_metadata(m), Err(ForkError::MissingVcsRevision)));
}

#[test]
fn provenance_entry_is_found_by_base_name() {
    assert_eq!(is_vcs_info_entry("foo-1.2.3/.cargo_vcs_info.json"), Ok(true));
    assert_eq!(is_vcs_info_entry(".cargo_vcs_info.json"), Ok(true));
    assert_eq!(is_vcs_info_entry("foo-1.2.3/nested/.cargo_vcs_info.json"), Ok(true));
    assert_eq!(is_vcs_info_entry("foo-1.2.3/Cargo.toml"), Ok(false));
    assert_eq!(is_vcs_info_entry("foo-1.2.3/.cargo_vcs_info.json.orig"), Ok(false));
    assert_eq!(is_vcs_info_entry("foo-1.2.3/"), Ok(false));
    assert_eq!(VCS_INFO_FILE_NAME, ".cargo_vcs_info.json");
}

#[test]
fn entry_without_file_name_is_an_archive_error() {
    assert_eq!(
        is_vcs_info_entry("foo-1.2.3/.cargo_vcs_info.json/.."),
        Err(ForkError::ArchiveFormatError)
    );
    assert_eq!(is_vcs_info_entry(""), Err(ForkError::ArchiveFormatError));
}

#[test]
fn provenance_file_name_must_match_exactly() {
    assert!(is_vcs_info_file_name(".cargo_vcs_info.json"));
    assert!(!is_vcs_info_file_name("cargo_vcs_info.json"));
    assert!(!is_vcs_info_file_name(".cargo_vcs_info.JSON"));
    assert!(!is_vcs_info_file_name(""));
}

#[test]
fn pinned_release_checks_out_recorded_revision_and_path() {
    let info = extract_vcs_info(Some(metadata(Some("abcd1234"), Some("crates/foo")))).unwrap();
    match plan_acquisition(SourceKind::VcsPinnedToRelease, info) {
        Ok(AcquirePlan::Checkout { revision, subpath: SubpathPlan::Recorded(p) }) => {
            assert_eq!(revision, "abcd1234");
            assert_eq!(p, "crates/foo");
        }
        _ => panic!("expected a checkout of the recorded revision and path"),
    }
}

#[test]
fn pinned_release_without_path_asks_workspace_metadata() {
    let info = extract_vcs_info(Some(metadata(Some("abcd1234"), None))).unwrap();
    match plan_acquisition(SourceKind::VcsPinnedToRelease, info) {
        Ok(AcquirePlan::Checkout { revision, subpath: SubpathPlan::FromWorkspaceMetadata }) => {
            assert_eq!(revision, "abcd1234");
        }
        _ => panic!("expected a checkout located through workspace metadata"),
    }
}

#[test]
fn pinned_release_without_provenance_fails_and_head_succeeds() {
    let info = extract_vcs_info(None).unwrap();
    assert!(info.is_none());
    assert!(matches!(
        plan_acquisition(SourceKind::VcsPinnedToRelease, None),
        Err(ForkError::NoVcsInfoForRelease)
    ));
    match plan_acquisition(SourceKind::VcsHead, info) {
        Ok(AcquirePlan::Checkout { revision, subpath: SubpathPlan::RepositoryRoot }) => {
            assert_eq!(revision, "HEAD");
        }
        _ => panic!("expected a checkout of HEAD at the repository root"),
    }
}

#[test]
fn head_ignores_recorded_path() {
    let info = extract_vcs_info(Some(metadata(Some("abcd1234"), Some("crates/foo")))).unwrap();
    match plan_acquisition(SourceKind::VcsHead, info) {
        Ok(AcquirePlan::Checkout { revision, subpath: SubpathPlan::RepositoryRoot }) => {
            assert_eq!(revision, "HEAD");
        }
        _ => panic!("expected a checkout of HEAD at the repository root"),
    }
}

#[test]
fn snapshot_unpacks_the_archive() {
    assert!(matches!(plan_acquisition(SourceKind::ArchiveSnapshot, None), Ok(AcquirePlan::UnpackArchive)));
}

#[test]
fn scan_uses_only_the_first_provenance_file() {
    let mut scan = VcsScan::new();
    assert_eq!(scan.on_entry("foo-1.2.3/Cargo.toml"), Ok(ScanAction::Skip));
    assert!(!scan.found);
    assert_eq!(scan.on_entry("foo-1.2.3/.cargo_vcs_info.json"), Ok(ScanAction::Extract));
    assert!(scan.found);
    assert_eq!(scan.on_entry("foo-1.2.3/nested/.cargo_vcs_info.json"), Ok(ScanAction::Stop));
    assert_eq!(scan.on_entry("foo-1.2.3/src/lib.rs"), Ok(ScanAction::Stop));
}

#[test]
fn scan_refuses_an_entry_without_a_file_name() {
    let mut scan = VcsScan::new();
    assert_eq!(scan.on_entry("foo-1.2.3/.."), Err(ForkError::ArchiveFormatError));
    assert!(!scan.found);
}
