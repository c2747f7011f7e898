use voidctl::drift::git_shell::{parse_porcelain_output, repo_status_from_run, GitDriftError, GitRun};

#[test]
fn test_parse_porcelain_lines() {
    let output = " M bash/.bashrc\nM  zsh/.zshrc\n?? newfile.sh\nR  old.sh -> renamed.sh\n";
    let entries = parse_porcelain_output(output);

    assert_eq!(entries.len(), 4);
    assert_eq!(entries[0].index_state, ' ');
    assert_eq!(entries[0].worktree_state, 'M');
    assert_eq!(entries[0].path, "bash/.bashrc");

    assert_eq!(entries[1].index_state, 'M');
    assert_eq!(entries[1].worktree_state, ' ');
    assert_eq!(entries[1].path, "zsh/.zshrc");

    assert_eq!(entries[2].index_state, '?');
    assert_eq!(entries[2].worktree_state, '?');
    assert_eq!(entries[2].path, "newfile.sh");

    assert_eq!(entries[3].index_state, 'R');
    assert_eq!(entries[3].worktree_state, ' ');
    assert_eq!(entries[3].path, "renamed.sh");
}

#[test]
fn short_lines_and_crlf_endings() {
    let entries = parse_porcelain_output("ab\r\n M x\r\n\n?? é\n");
    assert_eq!(entries.len(), 2);
    assert_eq!(entries[0].path, "x");
    assert_eq!(entries[1].path, "é");
    assert!(parse_porcelain_output("").is_empty());
}

#[test]
fn status_from_a_successful_run_is_parsed() {
    let r = repo_status_from_run(
        "/dots",
        GitRun::Finished { success: true, exit_code: Some(0), stdout: " M a\n".to_string() },
    );
    let entries = r.expect("entries");
    assert_eq!(entries.len(), 1);
    assert_eq!(entries[0].path, "a");
}

#[test]
fn status_errors_follow_the_run() {
    assert_eq!(
        repo_status_from_run("/dots", GitRun::DirectoryMissing),
        Err(GitDriftError::DirectoryNotFound("/dots".to_string()))
    );
    assert_eq!(
        repo_status_from_run("/dots", GitRun::NotStarted("no git".to_string())),
        Err(GitDriftError::GitExecutionFailed("no git".to_string()))
    );
    assert_eq!(
        repo_status_from_run(
            "/dots",
            GitRun::Finished { success: false, exit_code: Some(128), stdout: String::new() }
        ),
        Err(GitDriftError::GitExitError(128))
    );
    assert_eq!(
        repo_status_from_run(
            "/dots",
            GitRun::Finished { success: false, exit_code: None, stdout: String::new() }
        ),
        Err(GitDriftError::GitExitError(-1))
    );
}

#[test]
fn error_messages() {
    assert_eq!(
        GitDriftError::DirectoryNotFound("/d".to_string()).message(),
        "Dotfiles directory '/d' does not exist"
    );
    assert_eq!(
        GitDriftError::GitExecutionFailed("boom".to_string()).message(),
        "Failed to execute git command: boom"
    );
    assert_eq!(GitDriftError::GitExitError(-1).message(), "git status failed with exit code: -1");
    assert_eq!(GitDriftError::GitExitError(128).message(), "git status failed with exit code: 128");
    assert_eq!(
        GitDriftError::GitExitError(i32::MIN).message(),
        "git status failed with exit code: -2147483648"
    );
}
