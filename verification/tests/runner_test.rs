use tempfile::tempdir;
use voidctl::config::Config;
use voidctl::runner::{
    add_command, available_names, command_exit, command_outcome, list_commands, pick_command, resolve_command,
    CommandRun, RunnerError,
};
use voidctl::table::StrMap;

#[test]
fn test_runner_resolution() {
    let dir = tempdir().expect("failed to create tempdir");
    let mut config = Config::for_home(None);
    config
        .jump
        .aliases
        .insert("prj".to_string(), dir.path().to_str().unwrap().to_string());
    add_command(&mut config, "prj", "test", "cargo test");

    let (resolved_dir, cmd) = resolve_command(&config, "prj", Some("test")).unwrap();
    assert_eq!(std::path::Path::new(&resolved_dir), dir.path());
    assert_eq!(cmd, "cargo test");

    let list = list_commands(&config, "prj").unwrap();
    assert_eq!(list.len(), 1);
    assert_eq!(list[0], ("test", "cargo test"));
}

fn commands(pairs: &[(&str, &str)]) -> StrMap<String> {
    let mut m = StrMap::new();
    for (k, v) in pairs {
        m.insert(k.to_string(), v.to_string());
    }
    m
}

#[test]
fn picking_by_name_sole_default_and_run() {
    let one = commands(&[("build", "make")]);
    assert_eq!(pick_command(&one, "p", None).unwrap(), "make");
    assert_eq!(pick_command(&one, "p", Some("build")).unwrap(), "make");

    let with_default = commands(&[("a", "x"), ("default", "d"), ("run", "r")]);
    assert_eq!(pick_command(&with_default, "p", None).unwrap(), "d");

    let with_run = commands(&[("a", "x"), ("run", "r")]);
    assert_eq!(pick_command(&with_run, "p", None).unwrap(), "r");
}

#[test]
fn picking_fails_with_the_available_names() {
    let cmds = commands(&[("a", "x"), ("b", "y")]);
    assert_eq!(
        pick_command(&cmds, "p", None),
        Err(RunnerError::CommandNotFound {
            alias: "p".to_string(),
            cmd_name: "<unspecified>".to_string(),
            available: "a, b".to_string(),
        })
    );
    assert_eq!(
        pick_command(&cmds, "p", Some("c")),
        Err(RunnerError::CommandNotFound {
            alias: "p".to_string(),
            cmd_name: "c".to_string(),
            available: "a, b".to_string(),
        })
    );
    assert_eq!(available_names(&StrMap::new()), "");
}

#[test]
fn outcomes_of_resolution() {
    let mut config = Config::for_home(None);
    assert_eq!(
        command_outcome(&config, "prj", None, true),
        Err(RunnerError::AliasNotFound { alias: "prj".to_string() })
    );
    config.jump.aliases.insert("prj".to_string(), "/nowhere".to_string());
    assert_eq!(
        command_outcome(&config, "prj", None, false),
        Err(RunnerError::DirectoryNotFound { path: "/nowhere".to_string() })
    );
    assert_eq!(
        command_outcome(&config, "prj", None, true),
        Err(RunnerError::NoCommandsFound { alias: "prj".to_string() })
    );
    add_command(&mut config, "prj", "t", "cargo t");
    assert_eq!(
        command_outcome(&config, "prj", None, true),
        Ok(("/nowhere".to_string(), "cargo t".to_string()))
    );
    assert!(matches!(
        resolve_command(&config, "prj", None),
        Err(RunnerError::DirectoryNotFound { .. })
    ));
}

#[test]
fn adding_a_command_keeps_the_others() {
    let mut config = Config::for_home(None);
    add_command(&mut config, "prj", "b", "1");
    add_command(&mut config, "prj", "a", "2");
    add_command(&mut config, "other", "x", "3");
    add_command(&mut config, "prj", "b", "4");
    assert_eq!(list_commands(&config, "prj").unwrap(), vec![("a", "2"), ("b", "4")]);
    assert_eq!(list_commands(&config, "other").unwrap(), vec![("x", "3")]);
    assert!(list_commands(&config, "none").is_none());
}

#[test]
fn exits_and_messages() {
    assert_eq!(command_exit("ls", CommandRun::Exited(Some(3))), Ok(3));
    assert_eq!(command_exit("ls", CommandRun::Exited(None)), Err(RunnerError::TerminatedBySignal));
    let e = command_exit("ls", CommandRun::Failed("No such file".to_string())).unwrap_err();
    assert_eq!(e.message(), "Failed to execute command 'ls': No such file");
    assert_eq!(
        RunnerError::CommandNotFound {
            alias: "p".to_string(),
            cmd_name: "c".to_string(),
            available: "a, b".to_string()
        }
        .message(),
        "Command 'c' not found for alias 'p'. Available: a, b"
    );
    assert_eq!(RunnerError::NoCommandsFound { alias: "p".to_string() }.message(), "No commands configured for alias 'p'");
    assert_eq!(
        RunnerError::DirectoryNotFound { path: "/d".to_string() }.message(),
        "Target directory '/d' does not exist"
    );
    assert_eq!(RunnerError::AliasNotFound { alias: "p".to_string() }.message(), "Unknown jump alias: 'p'");
    assert_eq!(RunnerError::TerminatedBySignal.message(), "Command terminated by signal");
}
