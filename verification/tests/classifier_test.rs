use std::str::FromStr;
use voidctl::clean::classifier::{parse_category, CleanCategory, CleanItem, CleanTarget};

#[test]
fn test_clean_category_from_str_and_all() {
    assert_eq!(
        CleanCategory::from_str("package").expect("parse package"),
        CleanCategory::PackageCache
    );
    assert_eq!(
        CleanCategory::from_str("pkg").expect("parse pkg"),
        CleanCategory::PackageCache
    );
    assert_eq!(
        CleanCategory::from_str("package-cache").expect("parse package-cache"),
        CleanCategory::PackageCache
    );

    assert_eq!(
        CleanCategory::from_str("artifacts").expect("parse artifacts"),
        CleanCategory::Artifacts
    );
    assert_eq!(
        CleanCategory::from_str("build").expect("parse build"),
        CleanCategory::Artifacts
    );

    assert_eq!(
        CleanCategory::from_str("thumbnails").expect("parse thumbnails"),
        CleanCategory::Thumbnails
    );
    assert_eq!(
        CleanCategory::from_str("thumbs").expect("parse thumbs"),
        CleanCategory::Thumbnails
    );

    assert_eq!(
        CleanCategory::from_str("trash").expect("parse trash"),
        CleanCategory::Trash
    );
    assert_eq!(
        CleanCategory::from_str("user_trash").expect("parse user_trash"),
        CleanCategory::Trash
    );

    assert_eq!(
        CleanCategory::from_str("backups").expect("parse backups"),
        CleanCategory::Backups
    );
    assert_eq!(
        CleanCategory::from_str("dotfiles-backups").expect("parse dotfiles-backups"),
        CleanCategory::Backups
    );

    assert_eq!(
        CleanCategory::from_str("logs").expect("parse logs"),
        CleanCategory::LogsCache
    );
    assert_eq!(
        CleanCategory::from_str("cache").expect("parse cache"),
        CleanCategory::LogsCache
    );
    assert_eq!(
        CleanCategory::from_str("Logs & Cache").expect("parse Logs & Cache"),
        CleanCategory::LogsCache
    );

    assert_eq!(
        CleanCategory::from_str("hotspots").expect("parse hotspots"),
        CleanCategory::Hotspots
    );
    assert_eq!(
        CleanCategory::from_str("disk_hotspots").expect("parse disk_hotspots"),
        CleanCategory::Hotspots
    );

    assert!(CleanCategory::from_str("unknown_category").is_err());

    let all_cats = CleanCategory::all();
    assert_eq!(all_cats.len(), 7);
    assert!(all_cats.contains(&CleanCategory::PackageCache));
    assert!(all_cats.contains(&CleanCategory::Artifacts));
    assert!(all_cats.contains(&CleanCategory::Thumbnails));
    assert!(all_cats.contains(&CleanCategory::Trash));
    assert!(all_cats.contains(&CleanCategory::Backups));
    assert!(all_cats.contains(&CleanCategory::LogsCache));
    assert!(all_cats.contains(&CleanCategory::Hotspots));
}

#[test]
fn every_label_parses_back_to_its_category() {
    for c in CleanCategory::all() {
        assert_eq!(parse_category(c.label()), Ok(c));
    }
}

#[test]
fn every_upper_case_label_parses_back_to_its_category() {
    for c in CleanCategory::all() {
        assert_eq!(CleanCategory::from_str(&c.label().to_uppercase()), Ok(c));
    }
    assert_eq!(CleanCategory::from_str("PACKAGE CACHE"), Ok(CleanCategory::PackageCache));
}

#[test]
fn labels_are_the_display_names() {
    assert_eq!(CleanCategory::PackageCache.label(), "Package Cache");
    assert_eq!(CleanCategory::Artifacts.label(), "Build Artifacts");
    assert_eq!(CleanCategory::Thumbnails.label(), "Thumbnails");
    assert_eq!(CleanCategory::Trash.label(), "User Trash");
    assert_eq!(CleanCategory::Backups.label(), "Dotfiles Backups");
    assert_eq!(CleanCategory::LogsCache.label(), "Logs & Cache");
    assert_eq!(CleanCategory::Hotspots.label(), "Disk Hotspots");
}

#[test]
fn category_order_is_the_listing_order() {
    assert_eq!(
        CleanCategory::all(),
        vec![
            CleanCategory::PackageCache,
            CleanCategory::LogsCache,
            CleanCategory::Thumbnails,
            CleanCategory::Artifacts,
            CleanCategory::Trash,
            CleanCategory::Backups,
            CleanCategory::Hotspots,
        ]
    );
}

#[test]
fn unknown_category_message_quotes_the_input() {
    assert_eq!(
        parse_category("  Bogus  "),
        Err("Unknown cleanup category: '  Bogus  '".to_string())
    );
}

#[test]
fn category_names_ignore_case_space_and_separators() {
    assert_eq!(parse_category("  PACKAGE_CACHE \t"), Ok(CleanCategory::PackageCache));
    assert_eq!(parse_category("Trash Bin"), Ok(CleanCategory::Trash));
    assert_eq!(parse_category("logs-and-cache"), Ok(CleanCategory::LogsCache));
    assert_eq!(parse_category("Disk Hotspots"), Ok(CleanCategory::Hotspots));
    assert!(parse_category("").is_err());
}

#[test]
fn targets_and_items_keep_their_parts() {
    let t = CleanTarget::new(
        "Title".to_string(),
        "/p".to_string(),
        CleanCategory::Trash,
        10,
        2,
        true,
        false,
        vec!["/p/a".to_string()],
        "why".to_string(),
    );
    assert_eq!(t.title, "Title");
    assert_eq!(t.path, "/p");
    assert_eq!(t.category, CleanCategory::Trash);
    assert_eq!(t.size_bytes, 10);
    assert_eq!(t.item_count, 2);
    assert!(t.requires_elevation);
    assert!(!t.is_tree);
    assert_eq!(t.files, vec!["/p/a".to_string()]);
    assert_eq!(t.reason, "why");

    let i = CleanItem::new("/x".to_string(), 5, CleanCategory::Artifacts, "r".to_string(), true);
    assert_eq!(i.path, "/x");
    assert_eq!(i.size_bytes, 5);
    assert_eq!(i.category, CleanCategory::Artifacts);
    assert_eq!(i.reason, "r");
    assert!(i.is_dir);
}
