use tempfile::tempdir;
use voidctl::config::Config;
use voidctl::jump::{
    add_alias, execute_jump, generate_init_script, jump_outcome, list_aliases, resolve_alias, JumpError,
};

#[test]
fn test_generate_init_script() {
    let zsh = generate_init_script("zsh").expect("zsh init script");
    assert!(zsh.contains("j()"));
    assert!(zsh.contains("compdef _j j"));

    let bash = generate_init_script("bash").expect("bash init script");
    assert!(bash.contains("complete -F _j j"));

    let fish = generate_init_script("fish").expect("fish init script");
    assert!(fish.contains("complete -c j"));

    assert!(generate_init_script("tcsh").is_err());
}

#[test]
fn test_jump_registry() {
    let mut config = Config::for_home(None);
    add_alias(&mut config, "void".to_string(), "/home/kelexine/dev/voidctl".to_string());

    assert_eq!(resolve_alias(&config, "void"), Some("/home/kelexine/dev/voidctl"));
    assert_eq!(resolve_alias(&config, "nonexistent"), None);

    let list = list_aliases(&config);
    assert_eq!(list.len(), 1);
    assert_eq!(list[0].0, "void");
}

#[test]
fn test_jump_lifecycle() {
    let dir = tempdir().expect("tempdir");
    let mut config = Config::for_home(None);

    assert!(resolve_alias(&config, "mosaic").is_none());

    let target_path = dir.path().to_str().unwrap().to_string();
    add_alias(&mut config, "mosaic".to_string(), target_path.clone());

    assert_eq!(resolve_alias(&config, "mosaic"), Some(target_path.as_str()));

    let list = list_aliases(&config);
    assert_eq!(list.len(), 1);
    assert_eq!(list[0].0, "mosaic");
    assert_eq!(list[0].1, target_path.as_str());

    let jumped = execute_jump(&config, "mosaic").expect("execute jump");
    assert_eq!(jumped, target_path);

    let nonexistent = execute_jump(&config, "not_found");
    assert!(matches!(nonexistent, Err(JumpError::AliasNotFound { .. })));

    let missing_path = "/nonexistent/directory/path/12345".to_string();
    add_alias(&mut config, "dead".to_string(), missing_path);
    let dead_jump = execute_jump(&config, "dead");
    assert!(matches!(dead_jump, Err(JumpError::PathNotFound { .. })));
}

#[test]
fn shell_names_ignore_case() {
    assert_eq!(generate_init_script("ZSH"), generate_init_script("zsh"));
    assert_eq!(
        generate_init_script("Tcsh"),
        Err(JumpError::UnsupportedShell { shell: "Tcsh".to_string() })
    );
}

#[test]
fn re_adding_an_alias_replaces_its_path() {
    let mut config = Config::for_home(None);
    add_alias(&mut config, "p".to_string(), "/one".to_string());
    add_alias(&mut config, "q".to_string(), "/two".to_string());
    add_alias(&mut config, "p".to_string(), "/three".to_string());
    assert_eq!(resolve_alias(&config, "p"), Some("/three"));
    assert_eq!(resolve_alias(&config, "q"), Some("/two"));
    let list = list_aliases(&config);
    assert_eq!(list, vec![("p", "/three"), ("q", "/two")]);
}

#[test]
fn listing_is_sorted_by_alias() {
    let mut config = Config::for_home(None);
    for (a, p) in [("zeta", "/z"), ("alpha", "/a"), ("mid", "/m"), ("Beta", "/b")] {
        add_alias(&mut config, a.to_string(), p.to_string());
    }
    let names: Vec<&str> = list_aliases(&config).iter().map(|(a, _)| *a).collect();
    assert_eq!(names, vec!["Beta", "alpha", "mid", "zeta"]);
}

#[test]
fn jump_outcomes() {
    assert_eq!(
        jump_outcome("a", None, false),
        Err(JumpError::AliasNotFound { alias: "a".to_string() })
    );
    assert_eq!(jump_outcome("a", Some("/p"), true), Ok("/p".to_string()));
    assert_eq!(
        jump_outcome("a", Some("/p"), false),
        Err(JumpError::PathNotFound { path: "/p".to_string() })
    );
}

#[test]
fn jump_error_messages() {
    assert_eq!(JumpError::AliasNotFound { alias: "x".to_string() }.message(), "Unknown jump alias: 'x'");
    assert_eq!(
        JumpError::PathNotFound { path: "/p".to_string() }.message(),
        "Target path '/p' does not exist"
    );
    assert_eq!(
        JumpError::UnsupportedShell { shell: "tcsh".to_string() }.message(),
        "Unsupported shell: 'tcsh'. Supported shells: zsh, bash, fish"
    );
}
