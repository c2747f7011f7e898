use voidctl::clean::classifier::CleanCategory;
use voidctl::clean::sources::{
    dotfiles_backup_targets, format_build_target_title, is_package_file, journal_dir_target, journal_usage_target,
    pacman_cache_target, trash_target, user_cache_target, user_cache_targets, ScannedDirectory, ScannedEntry,
};

fn entry(path: &str, name: &str, size: u64) -> ScannedEntry {
    ScannedEntry { path: path.to_string(), name: name.to_string(), size_bytes: size }
}

fn dir(path: &str, size: u64, count: usize, stale: bool) -> ScannedDirectory {
    ScannedDirectory { path: path.to_string(), size_bytes: size, item_count: count, requires_elevation: false, stale }
}

#[test]
fn build_target_titles() {
    assert_eq!(format_build_target_title("/home/u/app/target"), "Cargo Target (app)");
    assert_eq!(format_build_target_title("/home/u/web/node_modules"), "node_modules (web)");
    assert_eq!(format_build_target_title("/home/u/py/__pycache__"), "Python cache (py)");
    assert_eq!(format_build_target_title("/home/u/py/.mypy_cache"), "Build Artifact (py/.mypy_cache)");
    assert_eq!(format_build_target_title("/"), "Cargo Target (project)");
}

#[test]
fn package_files() {
    assert!(is_package_file("linux-6.1-1-x86_64.pkg.tar.zst"));
    assert!(is_package_file("a.pkg.tar.xz"));
    assert!(is_package_file("a.pkg.tar.zst.sig"));
    assert!(is_package_file("download-1234.part"));
    assert!(!is_package_file("README"));
}

#[test]
fn pacman_cache_counts_only_packages() {
    let entries = vec![
        entry("/c/a.pkg.tar.zst", "a.pkg.tar.zst", 100),
        entry("/c/notes.txt", "notes.txt", 7),
        entry("/c/a.pkg.tar.zst.sig", "a.pkg.tar.zst.sig", 1),
    ];
    let t = pacman_cache_target("/c".to_string(), &entries, true).expect("target");
    assert_eq!(t.title, "Pacman Package Cache");
    assert_eq!(t.path, "/c");
    assert_eq!(t.category, CleanCategory::PackageCache);
    assert_eq!(t.size_bytes, 101);
    assert_eq!(t.item_count, 2);
    assert!(t.requires_elevation);
    assert!(!t.is_tree);
    assert_eq!(t.files, vec!["/c/a.pkg.tar.zst".to_string(), "/c/a.pkg.tar.zst.sig".to_string()]);
    assert_eq!(t.reason, "2 cached packages & signatures");

    assert!(pacman_cache_target("/c".to_string(), &vec![entry("/c/x", "x", 5)], false).is_none());
}

#[test]
fn trash_counts_everything() {
    let entries = vec![entry("/t/files/a", "a", 10), entry("/t/info/a.trashinfo", "a.trashinfo", 2)];
    let t = trash_target("/t".to_string(), &entries, false).expect("target");
    assert_eq!(t.title, "User Trash Bin");
    assert_eq!(t.category, CleanCategory::Trash);
    assert_eq!(t.size_bytes, 12);
    assert_eq!(t.item_count, 2);
    assert_eq!(t.reason, "2 files in Trash");
    assert!(trash_target("/t".to_string(), &Vec::new(), false).is_none());
}

#[test]
fn known_caches_and_stale_unknown_ones() {
    let t = user_cache_target(&dir("/h/.cache/thumbnails", 4096, 12, false), 7).expect("thumbnails");
    assert_eq!(t.title, "User Thumbnail Cache");
    assert_eq!(t.category, CleanCategory::Thumbnails);
    assert!(t.is_tree);
    assert_eq!(t.reason, "12 cached image thumbnails");

    let t = user_cache_target(&dir("/h/.cache/pip", 2048, 3, false), 7).expect("pip");
    assert_eq!(t.title, "pip Cache");
    assert_eq!(t.category, CleanCategory::PackageCache);
    assert_eq!(t.reason, "3 cached pip wheels");

    assert!(user_cache_target(&dir("/h/.cache/pip", 1023, 3, false), 7).is_none());
    assert!(user_cache_target(&dir("/h/.cache/pip", 4096, 0, false), 7).is_none());

    let big = 10 * 1024 * 1024;
    assert!(user_cache_target(&dir("/h/.cache/someapp", big, 5, false), 7).is_none());
    assert!(user_cache_target(&dir("/h/.cache/someapp", big - 1, 5, true), 7).is_none());
    let t = user_cache_target(&dir("/h/.cache/someapp", big, 5, true), 30).expect("stale app cache");
    assert_eq!(t.title, "App Cache (someapp)");
    assert_eq!(t.category, CleanCategory::LogsCache);
    assert_eq!(t.reason, "Cache older than 30 days");
}

#[test]
fn cache_scan_keeps_order_of_hits() {
    let dirs = vec![
        dir("/h/.cache/yay", 5000, 2, false),
        dir("/h/.cache/tiny", 10, 1, true),
        dir("/h/.cache/go-build", 5000, 9, false),
    ];
    let ts = user_cache_targets(&dirs, 7);
    let titles: Vec<&str> = ts.iter().map(|t| t.title.as_str()).collect();
    assert_eq!(titles, vec!["Yay AUR Build Cache", "Go Build Cache"]);
}

#[test]
fn stale_backups_only() {
    let dirs = vec![dir("/b/2024-01-01", 100, 3, true), dir("/b/today", 100, 3, false)];
    let ts = dotfiles_backup_targets(&dirs, 14);
    assert_eq!(ts.len(), 1);
    assert_eq!(ts[0].title, "Stale Dotfiles Backup (2024-01-01)");
    assert_eq!(ts[0].category, CleanCategory::Backups);
    assert_eq!(ts[0].reason, "Backup snapshot older than 14 days");
}

#[test]
fn journal_targets() {
    assert!(journal_dir_target(0, 3, false).is_none());
    let t = journal_dir_target(500, 0, false).expect("journal");
    assert_eq!(t.path, "/var/log/journal");
    assert_eq!(t.item_count, 1);
    assert_eq!(t.title, "Systemd Journal Logs");
    assert_eq!(t.reason, "Archived journals (vacuum with: sudo journalctl --vacuum-time=14d)");

    assert!(journal_usage_target(None).is_none());
    assert!(journal_usage_target(Some(0)).is_none());
    let t = journal_usage_target(Some(42)).expect("journal");
    assert_eq!(t.size_bytes, 42);
    assert!(t.requires_elevation);
}
