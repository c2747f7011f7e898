use voidctl::clean::classifier::CleanCategory;
use voidctl::clean::hotspots::HotspotItem;
use voidctl::clean::sources::{ScannedDirectory, ScannedEntry};
use voidctl::clean::walk::{artifact_tree_target, hotspot_target, is_excluded, loose_files_target, LooseKind};

fn entry(path: &str, size: u64) -> ScannedEntry {
    ScannedEntry { path: path.to_string(), name: path.rsplit('/').next().unwrap().to_string(), size_bytes: size }
}

#[test]
fn artifact_tree_is_titled_after_its_project() {
    let dir = ScannedDirectory {
        path: "/home/u/proj/target".to_string(),
        size_bytes: 4096,
        item_count: 12,
        requires_elevation: false,
        stale: false,
    };
    let t = artifact_tree_target(&dir);
    assert_eq!(t.title, "Cargo Target (proj)");
    assert_eq!(t.path, "/home/u/proj/target");
    assert_eq!(t.category, CleanCategory::Artifacts);
    assert_eq!((t.size_bytes, t.item_count), (4096, 12));
    assert!(t.is_tree && t.files.is_empty() && !t.requires_elevation);
    assert_eq!(t.reason, "12 files in build artifact tree");
}

#[test]
fn loose_files_are_gathered_per_root() {
    let es = vec![entry("/tmp/a/old.log", 100), entry("/tmp/b.log", 23)];
    let t = loose_files_target("/tmp".to_string(), LooseKind::StaleLogs, &es, true).expect("target");
    assert_eq!(t.title, "Stale Log Files (/tmp)");
    assert_eq!(t.category, CleanCategory::LogsCache);
    assert_eq!((t.size_bytes, t.item_count), (123, 2));
    assert_eq!(t.files, vec!["/tmp/a/old.log".to_string(), "/tmp/b.log".to_string()]);
    assert!(!t.is_tree && t.requires_elevation);
    assert_eq!(t.reason, "2 log files older than the age threshold");

    let pyc = vec![entry("/p/m.pyc", 5)];
    let t = loose_files_target("/p".to_string(), LooseKind::CompiledPython, &pyc, false).expect("target");
    assert_eq!((t.title.as_str(), t.category), ("Compiled Python Files (/p)", CleanCategory::Artifacts));
    assert_eq!(t.reason, "1 compiled Python files");

    let tmp = vec![entry("/var/tmp/x", 7)];
    let t = loose_files_target("/var/tmp".to_string(), LooseKind::StaleTemp, &tmp, false).expect("target");
    assert_eq!(t.title, "Stale Temporary Files (/var/tmp)");
    assert_eq!(t.reason, "1 temporary files older than the age threshold");

    assert!(loose_files_target("/tmp".to_string(), LooseKind::StaleTemp, &Vec::new(), false).is_none());
}

#[test]
fn hotspot_targets_name_the_file() {
    let item = HotspotItem { path: "/var/tmp/big.iso".to_string(), size_bytes: 9_000_000 };
    let t = hotspot_target(&item, false);
    assert_eq!(t.title, "Large File (big.iso)");
    assert_eq!(t.category, CleanCategory::Hotspots);
    assert_eq!((t.size_bytes, t.item_count), (9_000_000, 1));
    assert!(!t.is_tree && t.files.is_empty());
    assert_eq!(t.reason, "Among the largest files scanned");
}

#[test]
fn exclusions_match_whole_trailing_components() {
    let ex = vec![".git".to_string(), ".cargo/registry".to_string()];
    assert!(is_excluded("/home/u/proj/.git", &ex));
    assert!(is_excluded("/home/u/.cargo/registry", &ex));
    assert!(is_excluded(".git", &ex));
    assert!(!is_excluded("/home/u/proj/my.git", &ex));
    assert!(!is_excluded("/home/u/.cargo/registry/cache", &ex));
    assert!(!is_excluded("/home/u/proj", &Vec::new()));
}
