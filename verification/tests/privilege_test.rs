use voidctl::clean::privilege::{elevated_system_roots, euid_is_root, is_elevated_with, system_cache_roots};

fn mock_root_euid() -> u32 {
    0
}

fn mock_user_euid() -> u32 {
    1000
}

#[test]
fn test_is_elevated_seam() {
    assert!(is_elevated_with(mock_root_euid));
    assert!(!is_elevated_with(mock_user_euid));
}

#[test]
fn system_roots_are_listed() {
    assert_eq!(system_cache_roots(), vec!["/var/cache/pacman/pkg", "/var/log", "/tmp", "/var/tmp"]);
    assert_eq!(elevated_system_roots(), vec!["/var/cache", "/var/log/journal"]);
}

#[test]
fn only_user_id_zero_is_root() {
    assert!(euid_is_root(0));
    assert!(!euid_is_root(1));
    assert!(!euid_is_root(1000));
    assert!(!euid_is_root(u32::MAX));
    assert!(is_elevated_with(|| 0));
    assert!(!is_elevated_with(|| 65534));
}
