use voidctl::search::{
    entry_type_matches, has_glob_metachars, normalize_pattern, parse_search_type, prettify_path, search_bound,
    take_entry, CaseMode, SearchHit, SearchOptions, SearchType,
};

#[test]
fn mod_test_search_type_from_str() {
    assert_eq!("file".parse::<SearchType>().ok(), Some(SearchType::File));
    assert_eq!("f".parse::<SearchType>().ok(), Some(SearchType::File));
    assert_eq!("d".parse::<SearchType>().ok(), Some(SearchType::Dir));
    assert_eq!("directory".parse::<SearchType>().ok(), Some(SearchType::Dir));
    assert_eq!("any".parse::<SearchType>().ok(), Some(SearchType::Any));
    assert!("bogus".parse::<SearchType>().is_err());
}

#[test]
fn options_test_search_type_from_str() {
    assert_eq!("file".parse::<SearchType>().ok(), Some(SearchType::File));
    assert_eq!("f".parse::<SearchType>().ok(), Some(SearchType::File));
    assert_eq!("d".parse::<SearchType>().ok(), Some(SearchType::Dir));
    assert_eq!(
        "directory".parse::<SearchType>().ok(),
        Some(SearchType::Dir)
    );
    assert_eq!("any".parse::<SearchType>().ok(), Some(SearchType::Any));
    assert!("bogus".parse::<SearchType>().is_err());
}

#[test]
fn test_normalize_pattern() {
    assert_eq!(normalize_pattern("siwes", false), "*siwes*");
    assert_eq!(normalize_pattern("siwes", true), "siwes");
    assert_eq!(normalize_pattern("*.rs", false), "*.rs");
    assert_eq!(normalize_pattern("*siwes*", false), "*siwes*");
    assert_eq!(normalize_pattern("test_?", false), "test_?");
    assert_eq!(normalize_pattern("[a-z]*", false), "[a-z]*");
}

#[test]
fn normalizing_twice_changes_nothing() {
    for p in ["siwes", "", "*.rs", "a?b", "[x]", "plain.txt"] {
        for exact in [false, true] {
            let once = normalize_pattern(p, exact);
            assert_eq!(normalize_pattern(&once, exact), once);
        }
    }
}

#[test]
fn search_type_errors_and_spacing() {
    assert_eq!(parse_search_type("  ALL "), Ok(SearchType::Any));
    assert_eq!(parse_search_type("Dir"), Ok(SearchType::Dir));
    assert_eq!(
        parse_search_type(" Bogus "),
        Err("Unknown type 'bogus'. Valid values: file (f), dir (d), any (a)".to_string())
    );
}

#[test]
fn metacharacters() {
    assert!(has_glob_metachars("a*"));
    assert!(has_glob_metachars("?"));
    assert!(has_glob_metachars("x[y"));
    assert!(!has_glob_metachars("plain{}"));
}

fn options(pattern: &str, case_mode: CaseMode, exact: bool) -> SearchOptions {
    SearchOptions {
        pattern: pattern.to_string(),
        entry_type: SearchType::Any,
        root: "/root/dir".to_string(),
        case_mode,
        exact,
        limit: 0,
        follow_links: false,
        hidden: false,
    }
}

#[test]
fn case_modes() {
    assert!(options("abc", CaseMode::Smart, false).is_case_insensitive());
    assert!(!options("aBc", CaseMode::Smart, false).is_case_insensitive());
    assert!(!options("ÄBC", CaseMode::Smart, false).is_case_insensitive());
    assert!(options("ABC", CaseMode::Insensitive, false).is_case_insensitive());
    assert!(!options("abc", CaseMode::Sensitive, false).is_case_insensitive());
    assert_eq!(CaseMode::default(), CaseMode::Smart);
}

#[test]
fn effective_patterns() {
    assert_eq!(options("log", CaseMode::Smart, false).effective_pattern(), "*log*");
    assert_eq!(options("log", CaseMode::Smart, true).effective_pattern(), "log");
}

#[test]
fn matchers_follow_the_pattern_and_case() {
    let m = options("*.log", CaseMode::Smart, false).build_matcher().expect("matcher");
    assert!(m.is_match("app.log"));
    assert!(m.is_match("APP.LOG"));
    assert!(!m.is_match("app.txt"));

    let m = options("*.LOG", CaseMode::Smart, false).build_matcher().expect("matcher");
    assert!(!m.is_match("app.log"));
    assert!(m.is_match("app.LOG"));

    let m = options("cache", CaseMode::Sensitive, false).build_matcher().expect("matcher");
    assert!(m.is_match("mycache.db"));
    assert!(!m.is_match("MyCache.db"));
}

#[test]
fn invalid_patterns_are_named() {
    let err = options("[a-", CaseMode::Smart, false).build_matcher().unwrap_err();
    assert!(err.starts_with("Invalid glob pattern '[a-': "));
}

#[test]
fn walking_takes_hits_until_the_bound() {
    let mut opts = options("*.log", CaseMode::Smart, false);
    opts.entry_type = SearchType::File;
    let m = opts.build_matcher().expect("matcher");
    let bound = search_bound(2);
    let mut hits: Vec<SearchHit> = Vec::new();
    assert!(take_entry(&opts, &m, bound, &mut hits, "/root/dir", "dir", true));
    assert!(hits.is_empty());
    assert!(take_entry(&opts, &m, bound, &mut hits, "/root/dir/a.log", "a.log", false));
    assert!(take_entry(&opts, &m, bound, &mut hits, "/root/dir/b.log", "b.log", true));
    assert!(take_entry(&opts, &m, bound, &mut hits, "/root/dir/c.txt", "c.txt", false));
    assert!(!take_entry(&opts, &m, bound, &mut hits, "/root/dir/d.log", "d.log", false));
    assert_eq!(hits.len(), 2);
    assert_eq!(hits[0].path, "/root/dir/a.log");
    assert_eq!(hits[1].path, "/root/dir/d.log");
    assert!(!hits[1].is_dir);
    assert_eq!(search_bound(0), usize::MAX);
}

#[test]
fn type_filters() {
    assert!(entry_type_matches(SearchType::File, false));
    assert!(!entry_type_matches(SearchType::File, true));
    assert!(entry_type_matches(SearchType::Dir, true));
    assert!(!entry_type_matches(SearchType::Dir, false));
    assert!(entry_type_matches(SearchType::Any, true));
}

#[test]
fn pretty_paths() {
    assert_eq!(prettify_path("/root/dir/a/b.txt", "/root/dir"), "./a/b.txt");
    assert_eq!(prettify_path("/elsewhere/b.txt", "/root/dir"), "/elsewhere/b.txt");
    assert_eq!(prettify_path("/root/dirx/b", "/root/dir"), "/root/dirx/b");
}
