use voidctl::clean::logs_cache::{is_older_than, is_stale_cache_entry, is_stale_log_file};
use voidctl::clean::sizes::{journal_size_token, size_unit_power, split_size_token};
use voidctl::report::truncate_path;

#[test]
fn journal_token() {
    let sample = "Archived and active journals take up 52.4M in the file system.";
    assert_eq!(journal_size_token(sample), Some("52.4M".to_string()));
    assert_eq!(journal_size_token("take up    \t 8.0G\n"), Some("8.0G".to_string()));
    assert_eq!(journal_size_token("take up   "), None);
    assert_eq!(journal_size_token("nothing here"), None);
}

#[test]
fn size_tokens_split_at_the_unit() {
    assert_eq!(split_size_token(" 52.4M "), Some(("52.4".to_string(), "M".to_string())));
    assert_eq!(split_size_token("1024K"), Some(("1024".to_string(), "K".to_string())));
    assert_eq!(split_size_token("12"), None);
    assert_eq!(split_size_token("G"), Some((String::new(), "G".to_string())));
}

#[test]
fn unit_powers() {
    assert_eq!(size_unit_power("K"), 1);
    assert_eq!(size_unit_power("kB"), 1);
    assert_eq!(size_unit_power("M"), 2);
    assert_eq!(size_unit_power("g"), 3);
    assert_eq!(size_unit_power("TiB"), 4);
    assert_eq!(size_unit_power("B"), 0);
    assert_eq!(size_unit_power(""), 0);
}

#[test]
fn ages() {
    assert!(is_older_than(Some(7 * 86400 + 1), 7));
    assert!(!is_older_than(Some(7 * 86400), 7));
    assert!(!is_older_than(None, 0));
    assert!(!is_older_than(Some(0), 0));
    assert!(is_older_than(Some(1), 0));
    assert!(is_stale_log_file("/var/log/app.LOG", Some(100 * 86400), 7));
    assert!(!is_stale_log_file("/var/log/app.txt", Some(100 * 86400), 7));
    assert!(!is_stale_log_file("/var/log/app.log", Some(0), 7));
    assert!(is_stale_cache_entry("/tmp/x", Some(8 * 86400), 7));
    assert!(is_stale_cache_entry("/var/tmp/x", Some(8 * 86400), 7));
    assert!(!is_stale_cache_entry("/tmpx/y", Some(8 * 86400), 7));
    assert!(!is_stale_cache_entry("/tmp", Some(8 * 86400), 7));
}

#[test]
fn truncating_paths() {
    assert_eq!(truncate_path("/short", 55), "/short");
    assert_eq!(truncate_path("/a/very/long/path", 10), "...ng/path");
    assert_eq!(truncate_path("abcdef", 2), "...");
    assert_eq!(truncate_path("/aé/b", 5), ".../b");
}

#[test]
fn truncated_paths_fill_the_cell() {
    let long = "/home/user/projects/some/deeply/nested/directory/structure/file.txt";
    let cell = truncate_path(long, 20);
    assert_eq!(cell.len(), 20);
    assert!(cell.starts_with("..."));
    assert!(long.ends_with(&cell[3..]));
}
