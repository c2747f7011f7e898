use voidctl::clean::classifier::{CleanCategory, CleanTarget};
use voidctl::clean::deletion::{
    execute_deletions_with, plan_deletion, DeletionPlan, FileOutcome, RemovalOutcome, TargetOutcome,
};

fn deletion_target(path: &str, size: u64, requires_elevation: bool, is_tree: bool, files: Vec<&str>) -> CleanTarget {
    CleanTarget::new(
        format!("T {path}"),
        path.to_string(),
        CleanCategory::LogsCache,
        size,
        1,
        requires_elevation,
        is_tree,
        files.into_iter().map(|f| f.to_string()).collect(),
        "test".to_string(),
    )
}

#[test]
fn plans_follow_the_target() {
    assert_eq!(plan_deletion(&deletion_target("/a", 1, true, true, vec![]), false), DeletionPlan::SkipForPrivilege);
    assert_eq!(plan_deletion(&deletion_target("/a", 1, true, true, vec![]), true), DeletionPlan::RemoveTree);
    assert_eq!(plan_deletion(&deletion_target("/a", 1, false, false, vec!["/a/x"]), false), DeletionPlan::RemoveFiles);
    assert_eq!(plan_deletion(&deletion_target("/var/log/journal", 1, false, false, vec![]), false), DeletionPlan::VacuumJournal);
    assert_eq!(plan_deletion(&deletion_target("/var/log/journal/", 1, false, false, vec![]), false), DeletionPlan::VacuumJournal);
    assert_eq!(plan_deletion(&deletion_target("/tmp/x", 1, false, false, vec![]), false), DeletionPlan::RemovePath);
}

#[test]
fn tree_success_counts_its_size() {
    let s = execute_deletions_with(
        vec![deletion_target("/t", 100, false, true, vec![])],
        &vec![TargetOutcome::Tree(RemovalOutcome::Removed)],
        false,
    );
    assert_eq!(s.deleted_targets, 1);
    assert_eq!(s.reclaimed_bytes, 100);
    assert!(s.failures.is_empty());
    assert!(s.skipped_privilege.is_empty());
}

#[test]
fn partial_file_batch_counts_removed_bytes() {
    let s = execute_deletions_with(
        vec![deletion_target("/m", 100, false, false, vec!["/m/f1", "/m/f2", "/m/ghost"])],
        &vec![TargetOutcome::Files(vec![
            FileOutcome::Removed { bytes: 40 },
            FileOutcome::Removed { bytes: 60 },
            FileOutcome::Missing,
        ])],
        false,
    );
    assert_eq!(s.deleted_targets, 1);
    assert_eq!(s.reclaimed_bytes, 100);
    assert_eq!(s.failures, vec![("/m/ghost".to_string(), "File does not exist".to_string())]);
}

#[test]
fn only_three_file_failures_are_kept() {
    let s = execute_deletions_with(
        vec![deletion_target("/m", 0, false, false, vec!["/1", "/2", "/3", "/4"])],
        &vec![TargetOutcome::Files(vec![
            FileOutcome::Failed("e1".to_string()),
            FileOutcome::Missing,
            FileOutcome::Failed("e3".to_string()),
            FileOutcome::Failed("e4".to_string()),
        ])],
        false,
    );
    assert_eq!(s.deleted_targets, 0);
    assert_eq!(s.reclaimed_bytes, 0);
    assert_eq!(
        s.failures,
        vec![
            ("/1".to_string(), "e1".to_string()),
            ("/2".to_string(), "File does not exist".to_string()),
            ("/3".to_string(), "e3".to_string()),
        ]
    );
}

#[test]
fn mixed_outcomes_are_fault_tolerant() {
    let s = execute_deletions_with(
        vec![deletion_target("/valid", 80, false, false, vec![]), deletion_target("/no_such_tree", 200, false, true, vec![])],
        &vec![
            TargetOutcome::Path(RemovalOutcome::Removed),
            TargetOutcome::Tree(RemovalOutcome::Missing),
        ],
        false,
    );
    assert_eq!(s.deleted_targets, 1);
    assert_eq!(s.reclaimed_bytes, 80);
    assert_eq!(
        s.failures,
        vec![("/no_such_tree".to_string(), "Target directory does not exist".to_string())]
    );
}

#[test]
fn root_targets_are_skipped_unless_elevated() {
    let s = execute_deletions_with(vec![deletion_target("/sys.pkg", 500, true, false, vec![])], &vec![TargetOutcome::Skipped], false);
    assert_eq!(s.deleted_targets, 0);
    assert_eq!(s.reclaimed_bytes, 0);
    assert_eq!(s.skipped_privilege.len(), 1);
    assert_eq!(s.skipped_privilege[0].path, "/sys.pkg");

    let s = execute_deletions_with(
        vec![deletion_target("/sys.pkg", 500, true, false, vec![])],
        &vec![TargetOutcome::Path(RemovalOutcome::Removed)],
        true,
    );
    assert_eq!(s.deleted_targets, 1);
    assert_eq!(s.reclaimed_bytes, 500);
    assert!(s.skipped_privilege.is_empty());
}

#[test]
fn path_failures_are_reported() {
    let s = execute_deletions_with(
        vec![deletion_target("/gone", 1, false, false, vec![]), deletion_target("/var/log/journal", 9, false, false, vec![])],
        &vec![
            TargetOutcome::Path(RemovalOutcome::Missing),
            TargetOutcome::Path(RemovalOutcome::Failed("journalctl --vacuum-time=14d exited with exit status: 1".to_string())),
        ],
        false,
    );
    assert_eq!(s.deleted_targets, 0);
    assert_eq!(
        s.failures,
        vec![
            ("/gone".to_string(), "Target path does not exist".to_string()),
            (
                "/var/log/journal".to_string(),
                "journalctl --vacuum-time=14d exited with exit status: 1".to_string()
            ),
        ]
    );
}
