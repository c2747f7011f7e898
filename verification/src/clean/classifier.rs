//! Cleanup categories, their names, and the cleanup targets and items that
//! the scanner reports.
use crate::text::{
    ascii_upper, is_white_space, lemma_trim_ignores_ascii_case, trim_end_seq, trim_start_seq,
    all_ascii, ascii_lower, chars_of, concat3, push_char, str_equal, to_lowercase_string,
    trim_seq, trimmed, unicode_lowercase,
};
use vstd::prelude::*;

verus! {

/// Cleanup category classification.
#[derive(Debug, Clone, Copy, PartialEq, Eq, Structural, Hash, PartialOrd, Ord)]
pub enum CleanCategory {
    /// Pacman / AUR package caches.
    PackageCache,
    /// Build artifacts (target/, node_modules/, __pycache__/).
    Artifacts,
    /// User thumbnail caches.
    Thumbnails,
    /// Deleted files in the user trash bin.
    Trash,
    /// Historical dotfiles backups.
    Backups,
    /// Aged log files and cache hierarchies.
    LogsCache,
    /// High-capacity storage consumers.
    Hotspots,
}

/// The display name of a category.
pub open spec fn category_label(c: CleanCategory) -> Seq<char> {
    match c {
        CleanCategory::PackageCache => "Package Cache"@,
        CleanCategory::Artifacts => "Build Artifacts"@,
        CleanCategory::Thumbnails => "Thumbnails"@,
        CleanCategory::Trash => "User Trash"@,
        CleanCategory::Backups => "Dotfiles Backups"@,
        CleanCategory::LogsCache => "Logs & Cache"@,
        CleanCategory::Hotspots => "Disk Hotspots"@,
    }
}

/// Characters that a category name may hold between its words.
pub open spec fn is_name_separator(c: char) -> bool {
    c == '-' || c == '_' || c == ' ' || c == '&'
}

/// `s` without its separator characters.
pub open spec fn strip_separators(s: Seq<char>) -> Seq<char>
    decreases s.len(),
{
    if s.len() == 0 {
        s
    } else if is_name_separator(s.last()) {
        strip_separators(s.drop_last())
    } else {
        strip_separators(s.drop_last()).push(s.last())
    }
}

/// The category that a normalized name (lower-cased, separators removed)
/// stands for.
pub open spec fn category_for_key(k: Seq<char>) -> Option<CleanCategory> {
    if k == "packagecache"@ || k == "package"@ || k == "packages"@ || k == "pkg"@ {
        Some(CleanCategory::PackageCache)
    } else if k == "artifacts"@ || k == "artifact"@ || k == "build"@ || k == "buildartifacts"@ {
        Some(CleanCategory::Artifacts)
    } else if k == "thumbnails"@ || k == "thumbnail"@ || k == "thumbs"@ {
        Some(CleanCategory::Thumbnails)
    } else if k == "trash"@ || k == "trashbin"@ || k == "usertrash"@ {
        Some(CleanCategory::Trash)
    } else if k == "backups"@ || k == "backup"@ || k == "dotfilesbackups"@ {
        Some(CleanCategory::Backups)
    } else if k == "logscache"@ || k == "logs"@ || k == "cache"@ || k == "log"@ || k
        == "logsandcache"@ {
        Some(CleanCategory::LogsCache)
    } else if k == "hotspots"@ || k == "hotspot"@ || k == "diskhotspots"@ {
        Some(CleanCategory::Hotspots)
    } else {
        None
    }
}

/// The message for a name that names no category.
pub open spec fn unknown_category_message(s: Seq<char>) -> Seq<char> {
    "Unknown cleanup category: '"@ + s + "'"@
}

/// What parsing yields once the trimmed name has been lower-cased to `lowered`.
pub open spec fn spec_parse_lowered(lowered: Seq<char>, input: Seq<char>) -> Result<
    CleanCategory,
    Seq<char>,
> {
    match category_for_key(strip_separators(lowered)) {
        Some(c) => Ok(c),
        None => Err(unknown_category_message(input)),
    }
}

/// Whether `r` is the outcome described by `spec`.
pub open spec fn parse_result_is(r: Result<CleanCategory, String>, spec: Result<CleanCategory, Seq<char>>) -> bool {
    match spec {
        Ok(c) => r == Ok::<CleanCategory, String>(c),
        Err(m) => r matches Err(e) && e@ == m,
    }
}

impl CleanCategory {
    /// The display name of the category.
    pub fn label(&self) -> (r: &'static str)
        ensures
            r@ == category_label(*self),
    {
        match self {
            CleanCategory::PackageCache => "Package Cache",
            CleanCategory::Artifacts => "Build Artifacts",
            CleanCategory::Thumbnails => "Thumbnails",
            CleanCategory::Trash => "User Trash",
            CleanCategory::Backups => "Dotfiles Backups",
            CleanCategory::LogsCache => "Logs & Cache",
            CleanCategory::Hotspots => "Disk Hotspots",
        }
    }

    /// Returns all known categories.
    pub fn all() -> (r: Vec<CleanCategory>)
        ensures
            r@ == seq![
                CleanCategory::PackageCache,
                CleanCategory::LogsCache,
                CleanCategory::Thumbnails,
                CleanCategory::Artifacts,
                CleanCategory::Trash,
                CleanCategory::Backups,
                CleanCategory::Hotspots,
            ],
    {
        let r = vec![
            CleanCategory::PackageCache,
            CleanCategory::LogsCache,
            CleanCategory::Thumbnails,
            CleanCategory::Artifacts,
            CleanCategory::Trash,
            CleanCategory::Backups,
            CleanCategory::Hotspots,
        ];
        assert(r@ =~= seq![
            CleanCategory::PackageCache,
            CleanCategory::LogsCache,
            CleanCategory::Thumbnails,
            CleanCategory::Artifacts,
            CleanCategory::Trash,
            CleanCategory::Backups,
            CleanCategory::Hotspots,
        ]);
        r
    }
}

/// `s` without its separator characters.
pub fn remove_separators(s: &str) -> (r: String)
    ensures
        r@ == strip_separators(s@),
{
    let v = chars_of(s);
    let mut out = String::new();
    let mut i: usize = 0;
    while i < v.len()
        invariant
            i <= v.len(),
            v@ == s@,
            out@ == strip_separators(s@.take(i as int)),
        decreases v.len() - i,
    {
        assert(s@.take(i + 1).drop_last() =~= s@.take(i as int));
        let c = v[i];
        if !(c == '-' || c == '_' || c == ' ' || c == '&') {
            push_char(&mut out, c);
        }
        i = i + 1;
    }
    assert(s@.take(v.len() as int) =~= s@);
    out
}

/// The category that a normalized name stands for.
pub fn category_from_key(key: &str) -> (r: Option<CleanCategory>)
    ensures
        r == category_for_key(key@),
{
    let k = key;
    if str_equal(k, "packagecache") || str_equal(k, "package") || str_equal(k, "packages")
        || str_equal(k, "pkg") {
        Some(CleanCategory::PackageCache)
    } else if str_equal(k, "artifacts") || str_equal(k, "artifact") || str_equal(k, "build")
        || str_equal(k, "buildartifacts") {
        Some(CleanCategory::Artifacts)
    } else if str_equal(k, "thumbnails") || str_equal(k, "thumbnail") || str_equal(k, "thumbs") {
        Some(CleanCategory::Thumbnails)
    } else if str_equal(k, "trash") || str_equal(k, "trashbin") || str_equal(k, "usertrash") {
        Some(CleanCategory::Trash)
    } else if str_equal(k, "backups") || str_equal(k, "backup") || str_equal(
        k,
        "dotfilesbackups",
    ) {
        Some(CleanCategory::Backups)
    } else if str_equal(k, "logscache") || str_equal(k, "logs") || str_equal(k, "cache")
        || str_equal(k, "log") || str_equal(k, "logsandcache") {
        Some(CleanCategory::LogsCache)
    } else if str_equal(k, "hotspots") || str_equal(k, "hotspot") || str_equal(k, "diskhotspots") {
        Some(CleanCategory::Hotspots)
    } else {
        None
    }
}

/// Parses a category name once its trimmed form has been lower-cased.
pub fn category_from_lowered(lowered: &str, input: &str) -> (r: Result<CleanCategory, String>)
    ensures
        parse_result_is(r, spec_parse_lowered(lowered@, input@)),
{
    let key = remove_separators(lowered);
    match category_from_key(key.as_str()) {
        Some(c) => Ok(c),
        None => Err(concat3("Unknown cleanup category: '", input, "'")),
    }
}

/// Parses a category name: surrounding whitespace is ignored, case does not
/// matter, and the separators `-`, `_`, space and `&` are dropped before the
/// name is compared with the known names.
pub fn parse_category(s: &str) -> (r: Result<CleanCategory, String>)
    ensures
        parse_result_is(r, spec_parse_lowered(unicode_lowercase(trim_seq(s@)), s@)),
        all_ascii(trim_seq(s@)) ==> parse_result_is(
            r,
            spec_parse_lowered(trim_seq(s@).map_values(|c: char| ascii_lower(c)), s@),
        ),
{
    let t = trimmed(s);
    let lowered = to_lowercase_string(t.as_str());
    category_from_lowered(lowered.as_str(), s)
}

impl std::str::FromStr for CleanCategory {
    type Err = String;

    fn from_str(s: &str) -> (r: Result<Self, Self::Err>)
        ensures
            parse_result_is(r, spec_parse_lowered(unicode_lowercase(trim_seq(s@)), s@)),
            all_ascii(trim_seq(s@)) ==> parse_result_is(
                r,
                spec_parse_lowered(trim_seq(s@).map_values(|c: char| ascii_lower(c)), s@),
            ),
    {
        parse_category(s)
    }
}

/// An aggregated cleanup target presented to the user.
#[derive(Debug, Clone, PartialEq, Eq)]
pub struct CleanTarget {
    /// Display label (such as "Pacman Package Cache").
    pub title: String,
    /// Directory or file path.
    pub path: String,
    /// Category.
    pub category: CleanCategory,
    /// Reclaimable size in bytes.
    pub size_bytes: u64,
    /// Number of items contained.
    pub item_count: usize,
    /// Whether deleting it needs root.
    pub requires_elevation: bool,
    /// Whether deleting it removes a whole directory tree.
    pub is_tree: bool,
    /// The files to delete when the target is a batch of files.
    pub files: Vec<String>,
    /// Why it is a target.
    pub reason: String,
}

impl CleanTarget {
    /// Builds a target from its parts.
    pub fn new(
        title: String,
        path: String,
        category: CleanCategory,
        size_bytes: u64,
        item_count: usize,
        requires_elevation: bool,
        is_tree: bool,
        files: Vec<String>,
        reason: String,
    ) -> (t: Self)
        ensures
            t.title == title,
            t.path == path,
            t.category == category,
            t.size_bytes == size_bytes,
            t.item_count == item_count,
            t.requires_elevation == requires_elevation,
            t.is_tree == is_tree,
            t.files == files,
            t.reason == reason,
    {
        CleanTarget {
            title,
            path,
            category,
            size_bytes,
            item_count,
            requires_elevation,
            is_tree,
            files,
            reason,
        }
    }
}

/// A classified cleanup candidate.
#[derive(Debug, Clone, PartialEq, Eq)]
pub struct CleanItem {
    pub path: String,
    pub size_bytes: u64,
    pub category: CleanCategory,
    pub reason: String,
    pub is_dir: bool,
}

impl CleanItem {
    /// Builds an item from its parts.
    pub fn new(path: String, size_bytes: u64, category: CleanCategory, reason: String, is_dir: bool) -> (i: Self)
        ensures
            i.path == path,
            i.size_bytes == size_bytes,
            i.category == category,
            i.reason == reason,
            i.is_dir == is_dir,
    {
        CleanItem { path, size_bytes, category, reason, is_dir }
    }
}

/// A name without leading or trailing whitespace that is all ASCII letters,
/// spaces and `&` is its own trimmed form, and lower-casing it and dropping
/// separators gives `key`.
proof fn lemma_name_normalizes(name: Seq<char>, lowered: Seq<char>, key: Seq<char>)
    requires
        name.len() > 0,
        !is_white_space(name[0]),
        !is_white_space(name.last()),
        all_ascii(name),
        lowered == name.map_values(|ch: char| ascii_lower(ch)),
        strip_separators(lowered) == key,
    ensures
        trim_seq(name) == name,
        all_ascii(trim_seq(name)),
        strip_separators(trim_seq(name).map_values(|ch: char| ascii_lower(ch))) == key,
{
    assert(trim_start_seq(name) == name);
    assert(trim_end_seq(name) == name);
}

/// The name "Package Cache" normalizes to "packagecache".
proof fn lemma_label_key_package_cache()
    ensures
        category_for_key("packagecache"@) == Some(CleanCategory::PackageCache),
        all_ascii(trim_seq("Package Cache"@)),
        trim_seq("Package Cache"@) == "Package Cache"@,
        strip_separators(trim_seq("Package Cache"@).map_values(|ch: char| ascii_lower(ch))) == "packagecache"@,
{
    let name = "Package Cache"@;
    reveal_strlit("Package Cache");
    reveal_strlit("packagecache");
    reveal_strlit("package");
    reveal_strlit("packages");
    reveal_strlit("pkg");
    reveal_strlit("artifacts");
    reveal_strlit("artifact");
    reveal_strlit("build");
    reveal_strlit("buildartifacts");
    reveal_strlit("thumbnails");
    reveal_strlit("thumbnail");
    reveal_strlit("thumbs");
    reveal_strlit("trash");
    reveal_strlit("trashbin");
    reveal_strlit("usertrash");
    reveal_strlit("backups");
    reveal_strlit("backup");
    reveal_strlit("dotfilesbackups");
    reveal_strlit("logscache");
    reveal_strlit("logs");
    reveal_strlit("cache");
    reveal_strlit("log");
    reveal_strlit("logsandcache");
    reveal_strlit("hotspots");
    reveal_strlit("hotspot");
    reveal_strlit("packagecache");
    reveal_strlit("package");
    reveal_strlit("packages");
    reveal_strlit("pkg");
    reveal_strlit("artifacts");
    reveal_strlit("artifact");
    reveal_strlit("build");
    reveal_strlit("buildartifacts");
    reveal_strlit("thumbnails");
    reveal_strlit("thumbnail");
    reveal_strlit("thumbs");
    reveal_strlit("trash");
    reveal_strlit("trashbin");
    reveal_strlit("usertrash");
    reveal_strlit("backups");
    reveal_strlit("backup");
    reveal_strlit("dotfilesbackups");
    reveal_strlit("logscache");
    reveal_strlit("logs");
    reveal_strlit("cache");
    reveal_strlit("log");
    reveal_strlit("logsandcache");
    reveal_strlit("hotspots");
    reveal_strlit("hotspot");
    reveal_strlit("diskhotspots");
    reveal_with_fuel(strip_separators, 15);
    assert("packagecache"@[0] != "logsandcache"@[0]);
    assert("packagecache"@[0] != "diskhotspots"@[0]);
    let lowered = name.map_values(|ch: char| ascii_lower(ch));
    assert(lowered =~= seq!['p', 'a', 'c', 'k', 'a', 'g', 'e', ' ', 'c', 'a', 'c', 'h', 'e']);
    assert(strip_separators(lowered) =~= "packagecache"@);
    lemma_name_normalizes(name, lowered, "packagecache"@);
}

/// The name "Build Artifacts" normalizes to "buildartifacts".
proof fn lemma_label_key_artifacts()
    ensures
        category_for_key("buildartifacts"@) == Some(CleanCategory::Artifacts),
        all_ascii(trim_seq("Build Artifacts"@)),
        trim_seq("Build Artifacts"@) == "Build Artifacts"@,
        strip_separators(trim_seq("Build Artifacts"@).map_values(|ch: char| ascii_lower(ch))) == "buildartifacts"@,
{
    let name = "Build Artifacts"@;
    reveal_strlit("Build Artifacts");
    reveal_strlit("packagecache");
    reveal_strlit("package");
    reveal_strlit("packages");
    reveal_strlit("pkg");
    reveal_strlit("artifacts");
    reveal_strlit("artifact");
    reveal_strlit("build");
    reveal_strlit("buildartifacts");
    reveal_strlit("thumbnails");
    reveal_strlit("thumbnail");
    reveal_strlit("thumbs");
    reveal_strlit("trash");
    reveal_strlit("trashbin");
    reveal_strlit("usertrash");
    reveal_strlit("backups");
    reveal_strlit("backup");
    reveal_strlit("dotfilesbackups");
    reveal_strlit("logscache");
    reveal_strlit("logs");
    reveal_strlit("cache");
    reveal_strlit("log");
    reveal_strlit("logsandcache");
    reveal_strlit("hotspots");
    reveal_strlit("hotspot");
    reveal_strlit("diskhotspots");
    reveal_with_fuel(strip_separators, 17);
    let lowered = name.map_values(|ch: char| ascii_lower(ch));
    assert(lowered =~= seq!['b', 'u', 'i', 'l', 'd', ' ', 'a', 'r', 't', 'i', 'f', 'a', 'c', 't', 's']);
    assert(strip_separators(lowered) =~= "buildartifacts"@);
    lemma_name_normalizes(name, lowered, "buildartifacts"@);
}

/// The name "Thumbnails" normalizes to "thumbnails".
proof fn lemma_label_key_thumbnails()
    ensures
        category_for_key("thumbnails"@) == Some(CleanCategory::Thumbnails),
        all_ascii(trim_seq("Thumbnails"@)),
        trim_seq("Thumbnails"@) == "Thumbnails"@,
        strip_separators(trim_seq("Thumbnails"@).map_values(|ch: char| ascii_lower(ch))) == "thumbnails"@,
{
    let name = "Thumbnails"@;
    reveal_strlit("Thumbnails");
    reveal_strlit("packagecache");
    reveal_strlit("package");
    reveal_strlit("packages");
    reveal_strlit("pkg");
    reveal_strlit("artifacts");
    reveal_strlit("artifact");
    reveal_strlit("build");
    reveal_strlit("buildartifacts");
    reveal_strlit("thumbnails");
    reveal_strlit("thumbnail");
    reveal_strlit("thumbs");
    reveal_strlit("trash");
    reveal_strlit("trashbin");
    reveal_strlit("usertrash");
    reveal_strlit("backups");
    reveal_strlit("backup");
    reveal_strlit("dotfilesbackups");
    reveal_strlit("logscache");
    reveal_strlit("logs");
    reveal_strlit("cache");
    reveal_strlit("log");
    reveal_strlit("logsandcache");
    reveal_strlit("hotspots");
    reveal_strlit("hotspot");
    reveal_strlit("diskhotspots");
    reveal_with_fuel(strip_separators, 12);
    let lowered = name.map_values(|ch: char| ascii_lower(ch));
    assert(lowered =~= seq!['t', 'h', 'u', 'm', 'b', 'n', 'a', 'i', 'l', 's']);
    assert(strip_separators(lowered) =~= "thumbnails"@);
    lemma_name_normalizes(name, lowered, "thumbnails"@);
}

/// The name "User Trash" normalizes to "usertrash".
proof fn lemma_label_key_trash()
    ensures
        category_for_key("usertrash"@) == Some(CleanCategory::Trash),
        all_ascii(trim_seq("User Trash"@)),
        trim_seq("User Trash"@) == "User Trash"@,
        strip_separators(trim_seq("User Trash"@).map_values(|ch: char| ascii_lower(ch))) == "usertrash"@,
{
    let name = "User Trash"@;
    reveal_strlit("User Trash");
    reveal_strlit("packagecache");
    reveal_strlit("package");
    reveal_strlit("packages");
    reveal_strlit("pkg");
    reveal_strlit("artifacts");
    reveal_strlit("artifact");
    reveal_strlit("build");
    reveal_strlit("buildartifacts");
    reveal_strlit("thumbnails");
    reveal_strlit("thumbnail");
    reveal_strlit("thumbs");
    reveal_strlit("trash");
    reveal_strlit("trashbin");
    reveal_strlit("usertrash");
    reveal_strlit("backups");
    reveal_strlit("backup");
    reveal_strlit("dotfilesbackups");
    reveal_strlit("logscache");
    reveal_strlit("logs");
    reveal_strlit("cache");
    reveal_strlit("log");
    reveal_strlit("logsandcache");
    reveal_strlit("hotspots");
    reveal_strlit("hotspot");
    reveal_strlit("diskhotspots");
    reveal_with_fuel(strip_separators, 12);
    assert("usertrash"@[0] != "artifacts"@[0]);
    assert("usertrash"@[0] != "thumbnail"@[0]);
    assert("usertrash"@[0] != "logscache"@[0]);
    let lowered = name.map_values(|ch: char| ascii_lower(ch));
    assert(lowered =~= seq!['u', 's', 'e', 'r', ' ', 't', 'r', 'a', 's', 'h']);
    assert(strip_separators(lowered) =~= "usertrash"@);
    lemma_name_normalizes(name, lowered, "usertrash"@);
}

/// The name "Dotfiles Backups" normalizes to "dotfilesbackups".
proof fn lemma_label_key_backups()
    ensures
        category_for_key("dotfilesbackups"@) == Some(CleanCategory::Backups),
        all_ascii(trim_seq("Dotfiles Backups"@)),
        trim_seq("Dotfiles Backups"@) == "Dotfiles Backups"@,
        strip_separators(trim_seq("Dotfiles Backups"@).map_values(|ch: char| ascii_lower(ch))) == "dotfilesbackups"@,
{
    let name = "Dotfiles Backups"@;
    reveal_strlit("Dotfiles Backups");
    reveal_strlit("packagecache");
    reveal_strlit("package");
    reveal_strlit("packages");
    reveal_strlit("pkg");
    reveal_strlit("artifacts");
    reveal_strlit("artifact");
    reveal_strlit("build");
    reveal_strlit("buildartifacts");
    reveal_strlit("thumbnails");
    reveal_strlit("thumbnail");
    reveal_strlit("thumbs");
    reveal_strlit("trash");
    reveal_strlit("trashbin");
    reveal_strlit("usertrash");
    reveal_strlit("backups");
    reveal_strlit("backup");
    reveal_strlit("dotfilesbackups");
    reveal_strlit("logscache");
    reveal_strlit("logs");
    reveal_strlit("cache");
    reveal_strlit("log");
    reveal_strlit("logsandcache");
    reveal_strlit("hotspots");
    reveal_strlit("hotspot");
    reveal_strlit("diskhotspots");
    reveal_with_fuel(strip_separators, 18);
    let lowered = name.map_values(|ch: char| ascii_lower(ch));
    assert(lowered =~= seq!['d', 'o', 't', 'f', 'i', 'l', 'e', 's', ' ', 'b', 'a', 'c', 'k', 'u', 'p', 's']);
    assert(strip_separators(lowered) =~= "dotfilesbackups"@);
    lemma_name_normalizes(name, lowered, "dotfilesbackups"@);
}

/// The name "Logs & Cache" normalizes to "logscache".
proof fn lemma_label_key_logs_cache()
    ensures
        category_for_key("logscache"@) == Some(CleanCategory::LogsCache),
        all_ascii(trim_seq("Logs & Cache"@)),
        trim_seq("Logs & Cache"@) == "Logs & Cache"@,
        strip_separators(trim_seq("Logs & Cache"@).map_values(|ch: char| ascii_lower(ch))) == "logscache"@,
{
    let name = "Logs & Cache"@;
    reveal_strlit("Logs & Cache");
    reveal_strlit("packagecache");
    reveal_strlit("package");
    reveal_strlit("packages");
    reveal_strlit("pkg");
    reveal_strlit("artifacts");
    reveal_strlit("artifact");
    reveal_strlit("build");
    reveal_strlit("buildartifacts");
    reveal_strlit("thumbnails");
    reveal_strlit("thumbnail");
    reveal_strlit("thumbs");
    reveal_strlit("trash");
    reveal_strlit("trashbin");
    reveal_strlit("usertrash");
    reveal_strlit("backups");
    reveal_strlit("backup");
    reveal_strlit("dotfilesbackups");
    reveal_strlit("logscache");
    reveal_strlit("logs");
    reveal_strlit("cache");
    reveal_strlit("log");
    reveal_strlit("logsandcache");
    reveal_strlit("hotspots");
    reveal_strlit("hotspot");
    reveal_strlit("diskhotspots");
    reveal_with_fuel(strip_separators, 14);
    assert("logscache"@[0] != "artifacts"@[0]);
    assert("logscache"@[0] != "thumbnail"@[0]);
    assert("logscache"@[0] != "usertrash"@[0]);
    let lowered = name.map_values(|ch: char| ascii_lower(ch));
    assert(lowered =~= seq!['l', 'o', 'g', 's', ' ', '&', ' ', 'c', 'a', 'c', 'h', 'e']);
    assert(strip_separators(lowered) =~= "logscache"@);
    lemma_name_normalizes(name, lowered, "logscache"@);
}

/// The name "Disk Hotspots" normalizes to "diskhotspots".
proof fn lemma_label_key_hotspots()
    ensures
        category_for_key("diskhotspots"@) == Some(CleanCategory::Hotspots),
        all_ascii(trim_seq("Disk Hotspots"@)),
        trim_seq("Disk Hotspots"@) == "Disk Hotspots"@,
        strip_separators(trim_seq("Disk Hotspots"@).map_values(|ch: char| ascii_lower(ch))) == "diskhotspots"@,
{
    let name = "Disk Hotspots"@;
    reveal_strlit("Disk Hotspots");
    reveal_strlit("diskhotspots");
    reveal_strlit("packagecache");
    reveal_strlit("package");
    reveal_strlit("packages");
    reveal_strlit("pkg");
    reveal_strlit("artifacts");
    reveal_strlit("artifact");
    reveal_strlit("build");
    reveal_strlit("buildartifacts");
    reveal_strlit("thumbnails");
    reveal_strlit("thumbnail");
    reveal_strlit("thumbs");
    reveal_strlit("trash");
    reveal_strlit("trashbin");
    reveal_strlit("usertrash");
    reveal_strlit("backups");
    reveal_strlit("backup");
    reveal_strlit("dotfilesbackups");
    reveal_strlit("logscache");
    reveal_strlit("logs");
    reveal_strlit("cache");
    reveal_strlit("log");
    reveal_strlit("logsandcache");
    reveal_strlit("hotspots");
    reveal_strlit("hotspot");
    reveal_with_fuel(strip_separators, 15);
    assert("diskhotspots"@[0] != "packagecache"@[0]);
    assert("diskhotspots"@[0] != "logsandcache"@[0]);
    let lowered = name.map_values(|ch: char| ascii_lower(ch));
    assert(lowered =~= seq!['d', 'i', 's', 'k', ' ', 'h', 'o', 't', 's', 'p', 'o', 't', 's']);
    assert(strip_separators(lowered) =~= "diskhotspots"@);
    lemma_name_normalizes(name, lowered, "diskhotspots"@);
}

/// Every category's label parses back to that category: `from_str` of the
/// label (whose trimmed form is itself and all ASCII) gives `Ok(c)`.
pub proof fn lemma_label_parses_back(c: CleanCategory)
    ensures
        trim_seq(category_label(c)) == category_label(c),
        all_ascii(trim_seq(category_label(c))),
        spec_parse_lowered(
            trim_seq(category_label(c)).map_values(|ch: char| ascii_lower(ch)),
            category_label(c),
        ) == Ok::<CleanCategory, Seq<char>>(c),
{
    match c {
        CleanCategory::PackageCache => lemma_label_key_package_cache(),
        CleanCategory::Artifacts => lemma_label_key_artifacts(),
        CleanCategory::Thumbnails => lemma_label_key_thumbnails(),
        CleanCategory::Trash => lemma_label_key_trash(),
        CleanCategory::Backups => lemma_label_key_backups(),
        CleanCategory::LogsCache => lemma_label_key_logs_cache(),
        CleanCategory::Hotspots => lemma_label_key_hotspots(),
    }
}

/// Every category's label written in upper case parses back to that
/// category too: its trimmed form is all ASCII, and lower-casing that gives
/// what lower-casing the label gives, so `from_str` yields `Ok(c)`.
pub proof fn lemma_upper_label_parses_back(c: CleanCategory)
    ensures
        all_ascii(trim_seq(category_label(c).map_values(|ch: char| ascii_upper(ch)))),
        spec_parse_lowered(
            trim_seq(category_label(c).map_values(|ch: char| ascii_upper(ch))).map_values(
                |ch: char| ascii_lower(ch),
            ),
            category_label(c).map_values(|ch: char| ascii_upper(ch)),
        ) == Ok::<CleanCategory, Seq<char>>(c),
{
    lemma_label_parses_back(c);
    let label = category_label(c);
    assert(all_ascii(label));
    lemma_trim_ignores_ascii_case(label);
}

} // verus!
