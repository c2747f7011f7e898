use voidctl::clean::classifier::{CleanCategory, CleanTarget};
use voidctl::clean::selection::{
    category_option_label, picked_size_and_items, select_targets, summarize_categories, take_targets, target_option_label,
    CleanError, TargetFilter,
};

fn selection_target(title: &str, category: CleanCategory, size: u64, items: usize, root: bool) -> CleanTarget {
    CleanTarget::new(
        title.to_string(),
        format!("/{title}"),
        category,
        size,
        items,
        root,
        true,
        Vec::new(),
        "r".to_string(),
    )
}

fn sample() -> Vec<CleanTarget> {
    vec![
        selection_target("a", CleanCategory::Trash, 10, 1, false),
        selection_target("b", CleanCategory::PackageCache, 500, 20, true),
        selection_target("c", CleanCategory::Trash, 30, 2, false),
        selection_target("d", CleanCategory::Artifacts, 100, 3, false),
    ]
}

#[test]
fn summaries_per_category_largest_first() {
    let s = summarize_categories(&sample());
    let cats: Vec<CleanCategory> = s.iter().map(|c| c.category).collect();
    assert_eq!(cats, vec![CleanCategory::PackageCache, CleanCategory::Artifacts, CleanCategory::Trash]);
    assert_eq!(s[2].target_count, 2);
    assert_eq!(s[2].total_size, 40);
    assert_eq!(s[2].item_count, 3);
    assert!(!s[2].has_root);
    assert!(s[0].has_root);
    assert!(summarize_categories(&Vec::new()).is_empty());
}

#[test]
fn filters_select_positions() {
    let ts = sample();
    assert_eq!(select_targets(&ts, &TargetFilter::Category(CleanCategory::Trash)), vec![0, 2]);
    assert_eq!(
        select_targets(&ts, &TargetFilter::Categories(vec![CleanCategory::Artifacts, CleanCategory::PackageCache])),
        vec![1, 3]
    );
    assert_eq!(select_targets(&ts, &TargetFilter::Safe), vec![0, 2, 3]);
    assert_eq!(picked_size_and_items(&ts, &vec![0, 2]), (40, 3));
}

#[test]
fn option_labels() {
    let t = selection_target("Pip Cache", CleanCategory::PackageCache, 1500, 3, true);
    let label = target_option_label(&t);
    assert!(label.starts_with("[Package Cache] Pip Cache — "));
    assert!(label.ends_with(" (3 items) [Requires Root]"));
    let single = target_option_label(&selection_target("One", CleanCategory::Trash, 0, 1, false));
    assert_eq!(single, "[User Trash] One — 0 B");

    let s = summarize_categories(&sample());
    let l = category_option_label(&s[2]);
    assert!(l.starts_with("[User Trash] "));
    assert!(l.ends_with(" across 2 target(s) (3 item(s))"));
}

#[test]
fn prompt_errors() {
    assert_eq!(
        CleanError::PromptAborted("esc".to_string()).message(),
        "Interactive prompt aborted: esc"
    );
}

#[test]
fn taking_listed_targets_keeps_their_order() {
    let titles = |ts: &Vec<CleanTarget>| ts.iter().map(|t| t.title.clone()).collect::<Vec<_>>();
    assert_eq!(titles(&take_targets(sample(), &[3, 0, 2])), vec!["a", "c", "d"]);
    assert_eq!(titles(&take_targets(sample(), &[1, 1, 9])), vec!["b"]);
    assert!(take_targets(sample(), &[]).is_empty());
    let safe = select_targets(&sample(), &TargetFilter::Safe);
    assert_eq!(titles(&take_targets(sample(), &safe)), vec!["a", "c", "d"]);
}
