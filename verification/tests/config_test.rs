use voidctl::config::{
    default_age_threshold_days, default_dotfiles_dir, default_exclude, default_scan_roots, default_symlinks,
    choose_home_dir, config_path_for, dotfiles_dir_for, is_commands_key, sudo_home_candidate, CleanConfig, Config,
};

#[test]
fn clean_defaults() {
    let c = CleanConfig::default();
    assert_eq!(c.age_threshold_days, 7);
    assert_eq!(default_age_threshold_days(), 7);
    assert_eq!(c.scan_roots, default_scan_roots());
    assert_eq!(c.exclude, default_exclude());
    assert!(c.extra_scan_roots.is_empty());
    assert!(default_exclude().contains(&".git".to_string()));
}

#[test]
fn default_links_and_dotfiles_dir() {
    let links = default_symlinks();
    assert!(links.len() > 0);
    assert_eq!(dotfiles_dir_for(Some("/home/u"), true), "/home/u/dotfiles");
    assert_eq!(dotfiles_dir_for(Some("/home/u"), false), "/home/u/.dotfiles");
    assert_eq!(dotfiles_dir_for(None, false), "dotfiles");
    assert_eq!(default_dotfiles_dir(None), "dotfiles");
}

#[test]
fn configs_start_empty() {
    let c = Config::for_home(Some("/nonexistent-home"));
    assert_eq!(c.jump.aliases.len(), 0);
    assert_eq!(c.jump.commands.len(), 0);
    assert_eq!(c.drift.dotfiles_dir, "/nonexistent-home/.dotfiles");
}

#[test]
fn commands_key() {
    assert!(is_commands_key("commands"));
    assert!(!is_commands_key("Commands"));
    assert!(!is_commands_key("void"));
}

#[test]
fn home_and_config_paths() {
    assert_eq!(sudo_home_candidate(Some("alice")), Some("/home/alice".to_string()));
    assert_eq!(sudo_home_candidate(Some("root")), None);
    assert_eq!(sudo_home_candidate(Some("")), None);
    assert_eq!(sudo_home_candidate(None), None);
    assert_eq!(
        choose_home_dir(Some("/home/alice".to_string()), true, Some("/root".to_string())),
        Some("/home/alice".to_string())
    );
    assert_eq!(
        choose_home_dir(Some("/home/alice".to_string()), false, Some("/root".to_string())),
        Some("/root".to_string())
    );
    assert_eq!(choose_home_dir(None, false, None), None);
    assert_eq!(config_path_for(Some("/etc/v.toml"), Some("/h")), Some("/etc/v.toml".to_string()));
    assert_eq!(config_path_for(None, Some("/h")), Some("/h/.config/voidctl/voidctl.toml".to_string()));
    assert_eq!(config_path_for(None, None), None);
}
