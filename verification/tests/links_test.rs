use voidctl::drift::links::{
    check_mode_drift, evaluate_link, mode_check_needed, parse_git_stage_mode, parse_octal_word,
    resolve_link_destination, verify_symlinks, LinkProbe, LinkStatus, SourceModes, TargetState,
};
use voidctl::drift::{audit_drift};
use voidctl::drift::git_shell::{GitDriftError, GitStatusEntry};
use voidctl::table::StrMap;

fn probe(source_exists: bool, target: TargetState, modes: Option<(Option<u32>, Option<u32>)>) -> LinkProbe {
    LinkProbe {
        source_exists,
        target,
        modes: modes.map(|(source_mode, git_mode)| SourceModes { source_mode, git_mode }),
    }
}

fn good_link() -> TargetState {
    TargetState::Link { destination: "/d/x".to_string(), resolves_to_source: true }
}

#[test]
fn statuses_of_links() {
    assert_eq!(evaluate_link("x", &probe(false, good_link(), None)), LinkStatus::MissingSource);
    assert_eq!(evaluate_link("x", &probe(true, TargetState::Missing, None)), LinkStatus::Missing);
    assert_eq!(evaluate_link("x", &probe(true, TargetState::RealFile, None)), LinkStatus::ReplacedByRealFile);
    assert_eq!(
        evaluate_link("x", &probe(true, TargetState::UnreadableLink, None)),
        LinkStatus::Broken { actual_destination: "<unreadable>".to_string() }
    );
    assert_eq!(
        evaluate_link(
            "x",
            &probe(true, TargetState::Link { destination: "nowhere".to_string(), resolves_to_source: false }, None)
        ),
        LinkStatus::Broken { actual_destination: "nowhere".to_string() }
    );
    assert_eq!(evaluate_link("x", &probe(true, good_link(), Some((Some(0o100644), None)))), LinkStatus::Valid);
}

#[test]
fn mode_drift_rules() {
    assert_eq!(
        check_mode_drift("ssh/config", Some(0o100666), None),
        LinkStatus::PermissionDrift { expected_mode: 0o600, actual_mode: 0o666 }
    );
    assert_eq!(check_mode_drift("ssh/config", Some(0o100600), None), LinkStatus::Valid);
    assert_eq!(
        check_mode_drift("bin/tool", Some(0o644), Some(0o100755)),
        LinkStatus::PermissionDrift { expected_mode: 0o755, actual_mode: 0o644 }
    );
    assert_eq!(check_mode_drift("bin/tool", Some(0o755), Some(0o100755)), LinkStatus::Valid);
    assert_eq!(check_mode_drift("rc", Some(0o640), Some(0o100644)), LinkStatus::Valid);
    assert_eq!(
        check_mode_drift("rc", None, Some(0o100755)),
        LinkStatus::PermissionDrift { expected_mode: 0o755, actual_mode: 0 }
    );
}

#[test]
fn labels() {
    assert_eq!(LinkStatus::Valid.label(), "VALID");
    assert_eq!(
        LinkStatus::PermissionDrift { expected_mode: 0o600, actual_mode: 0o666 }.label(),
        "MODE DRIFT (600 vs 666)"
    );
    assert_eq!(LinkStatus::PermissionDrift { expected_mode: 0, actual_mode: 8 }.label(), "MODE DRIFT (0 vs 10)");
    assert_eq!(
        LinkStatus::Broken { actual_destination: "/x".to_string() }.label(),
        "BROKEN (points to /x)"
    );
    assert_eq!(LinkStatus::ReplacedByRealFile.label(), "REPLACED BY FILE");
    assert_eq!(LinkStatus::Missing.label(), "MISSING LINK");
    assert_eq!(LinkStatus::MissingSource.label(), "SOURCE MISSING IN REPO");
}

#[test]
fn octal_modes() {
    assert_eq!(parse_git_stage_mode("100644 abcdef 0\tssh/config\n"), Some(0o100644));
    assert_eq!(parse_git_stage_mode("  100755 x 0\tbin\nother"), Some(0o100755));
    assert_eq!(parse_git_stage_mode(""), None);
    assert_eq!(parse_git_stage_mode("\n100644"), None);
    assert_eq!(parse_octal_word("+17"), Some(15));
    assert_eq!(parse_octal_word("+"), None);
    assert_eq!(parse_octal_word("8"), None);
    assert_eq!(parse_octal_word("37777777777"), Some(u32::MAX));
    assert_eq!(parse_octal_word("40000000000"), None);
    assert_eq!(parse_octal_word("400000000009"), None);
    assert_eq!(parse_octal_word("-1"), None);
}

#[test]
fn destinations() {
    assert_eq!(resolve_link_destination("/h/.rc", "/d/rc"), "/d/rc");
    assert_eq!(resolve_link_destination("/h/.rc", "../d/rc"), "/h/../d/rc");
    assert_eq!(resolve_link_destination("/h/sub/.rc", "rc"), "/h/sub/rc");
    assert!(mode_check_needed(true, &good_link()));
    assert!(!mode_check_needed(false, &good_link()));
    assert!(!mode_check_needed(true, &TargetState::RealFile));
}

fn links() -> StrMap<String> {
    let mut m = StrMap::new();
    m.insert("zshrc".to_string(), ".zshrc".to_string());
    m.insert("bashrc".to_string(), ".bashrc".to_string());
    m.insert("ssh/config".to_string(), ".ssh/config".to_string());
    m
}

#[test]
fn records_are_sorted_by_target() {
    let probes = vec![
        probe(true, good_link(), Some((Some(0o644), None))),
        probe(true, TargetState::Missing, None),
        probe(true, good_link(), Some((Some(0o666), None))),
    ];
    let records = verify_symlinks("/dots", "/home/u", &links(), &probes);
    let targets: Vec<&str> = records.iter().map(|r| r.target_rel.as_str()).collect();
    assert_eq!(targets, vec![".bashrc", ".ssh/config", ".zshrc"]);
    assert_eq!(records[0].status, LinkStatus::Missing);
    assert_eq!(records[0].expected_source, "/dots/bashrc");
    assert_eq!(records[0].target_path, "/home/u/.bashrc");
    assert_eq!(
        records[1].status,
        LinkStatus::PermissionDrift { expected_mode: 0o600, actual_mode: 0o666 }
    );
    assert_eq!(records[2].status, LinkStatus::Valid);
}

#[test]
fn audits_keep_the_git_result() {
    let probes = vec![
        probe(true, good_link(), Some((Some(0o644), None))),
        probe(true, TargetState::Missing, None),
        probe(true, good_link(), Some((Some(0o600), None))),
    ];
    let entries = vec![GitStatusEntry { index_state: ' ', worktree_state: 'M', path: "zshrc".to_string() }];
    let report = audit_drift("/dots", "/home/u", &links(), &probes, Ok(entries.clone()));
    assert_eq!(report.link_records.len(), 3);
    assert_eq!(report.git_entries, Ok(entries));

    let report = audit_drift("/dots", "/home/u", &links(), &probes, Err(GitDriftError::GitExitError(128)));
    assert_eq!(report.git_entries, Err("git status failed with exit code: 128".to_string()));
}
