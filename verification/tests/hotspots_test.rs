use voidctl::clean::hotspots::{sort_by_size_descending, HotspotItem, HotspotTracker};

#[test]
fn test_hotspot_tracker() {
    let mut tracker = HotspotTracker::new(2);
    tracker.observe("/file1", 100);
    tracker.observe("/file2", 500);
    tracker.observe("/file3", 300);

    let items = tracker.into_sorted_vec();
    assert_eq!(items.len(), 2);
    assert_eq!(items[0].size_bytes, 500);
    assert_eq!(items[1].size_bytes, 300);
}

#[test]
fn tracker_keeps_the_largest_entries() {
    let mut tracker = HotspotTracker::new(3);
    for (i, size) in [7u64, 1, 9, 3, 9, 2, 8].iter().enumerate() {
        tracker.observe(&format!("/f{i}"), *size);
    }
    let items = tracker.into_sorted_vec();
    let sizes: Vec<u64> = items.iter().map(|h| h.size_bytes).collect();
    assert_eq!(sizes, vec![9, 9, 8]);
}

#[test]
fn tracker_with_no_capacity_keeps_nothing() {
    let mut tracker = HotspotTracker::new(0);
    tracker.observe("/a", 10);
    assert!(tracker.into_sorted_vec().is_empty());
}

#[test]
fn equal_size_does_not_displace_a_kept_entry() {
    let mut tracker = HotspotTracker::new(1);
    tracker.observe("/first", 5);
    tracker.observe("/second", 5);
    let items = tracker.into_sorted_vec();
    assert_eq!(items.len(), 1);
    assert_eq!(items[0].path, "/first");
}

#[test]
fn sorting_orders_by_size_descending() {
    let v = vec![
        HotspotItem { path: "a".to_string(), size_bytes: 1 },
        HotspotItem { path: "b".to_string(), size_bytes: 3 },
        HotspotItem { path: "c".to_string(), size_bytes: 2 },
    ];
    let sorted = sort_by_size_descending(v);
    let paths: Vec<&str> = sorted.iter().map(|h| h.path.as_str()).collect();
    assert_eq!(paths, vec!["b", "c", "a"]);
}
