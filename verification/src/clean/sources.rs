//! The cleanup targets built from what the scanner found on disk: the pacman
//! package cache, the trash bin, application caches under `~/.cache`, stale
//! dotfiles backups, the systemd journal, and build artifact titles. Reading
//! directories, sizing trees, reading ages and asking whether a path is
//! writable is the caller's part; these functions decide which targets there
//! are and how each is described.
use crate::clean::classifier::{CleanCategory, CleanTarget};
use crate::paths::{file_name_of, parent_of, path_file_name, path_parent};
use crate::text::{concat2, concat3, decimal, decimal_string, ends_with_seq, owned, str_ends_with, str_equal, strings_view};
use vstd::prelude::*;

verus! {

/// A directory entry as the scanner read it: its path, its final component
/// and its size in bytes (a directory's size is that of its tree).
#[derive(Debug)]
pub struct ScannedEntry {
    pub path: String,
    pub name: String,
    pub size_bytes: u64,
}

/// A directory as the scanner read it: its path, the bytes and files of its
/// tree, whether deleting it needs root, and whether it is older than the age
/// threshold.
#[derive(Debug)]
pub struct ScannedDirectory {
    pub path: String,
    pub size_bytes: u64,
    pub item_count: usize,
    pub requires_elevation: bool,
    pub stale: bool,
}

/// Whether `t` has exactly these parts.
pub open spec fn target_is(
    t: CleanTarget,
    title: Seq<char>,
    path: Seq<char>,
    category: CleanCategory,
    size_bytes: nat,
    item_count: nat,
    requires_elevation: bool,
    is_tree: bool,
    files: Seq<Seq<char>>,
    reason: Seq<char>,
) -> bool {
    &&& t.title@ == title
    &&& t.path@ == path
    &&& t.category == category
    &&& t.size_bytes == size_bytes
    &&& t.item_count == item_count
    &&& t.requires_elevation == requires_elevation
    &&& t.is_tree == is_tree
    &&& strings_view(t.files@) == files
    &&& t.reason@ == reason
}

// ---------------------------------------------------------------------------
// Build artifact titles

/// The title of a build artifact directory whose final component is `name`
/// and whose parent's final component is `project`.
pub open spec fn build_title(name: Seq<char>, project: Seq<char>) -> Seq<char> {
    if name == "target"@ {
        "Cargo Target ("@ + project + ")"@
    } else if name == "node_modules"@ {
        "node_modules ("@ + project + ")"@
    } else if name == "__pycache__"@ {
        "Python cache ("@ + project + ")"@
    } else {
        "Build Artifact ("@ + project + "/"@ + name + ")"@
    }
}

/// The final component of `p`, or `target` where it has none.
pub open spec fn artifact_name(p: Seq<char>) -> Seq<char> {
    match path_file_name(p) {
        Some(n) => n,
        None => "target"@,
    }
}

/// The final component of the parent of `p`, or `project` where there is none.
pub open spec fn artifact_project(p: Seq<char>) -> Seq<char> {
    match path_parent(p) {
        Some(q) => match path_file_name(q) {
            Some(n) => n,
            None => "project"@,
        },
        None => "project"@,
    }
}

/// Formats a readable title for a build target directory: `Cargo Target`,
/// `node_modules` or `Python cache` with the project's name, or
/// `Build Artifact (project/name)`.
pub fn format_build_target_title(path: &str) -> (r: String)
    ensures
        r@ == build_title(artifact_name(path@), artifact_project(path@)),
{
    let name = match file_name_of(path) {
        Some(n) => n,
        None => owned("target"),
    };
    let project = match parent_of(path) {
        Some(q) => match file_name_of(q.as_str()) {
            Some(n) => n,
            None => owned("project"),
        },
        None => owned("project"),
    };
    if str_equal(name.as_str(), "target") {
        concat3("Cargo Target (", project.as_str(), ")")
    } else if str_equal(name.as_str(), "node_modules") {
        concat3("node_modules (", project.as_str(), ")")
    } else if str_equal(name.as_str(), "__pycache__") {
        concat3("Python cache (", project.as_str(), ")")
    } else {
        let head = concat3("Build Artifact (", project.as_str(), "/");
        concat3(head.as_str(), name.as_str(), ")")
    }
}

// ---------------------------------------------------------------------------
// Pacman package cache

/// Whether a file name is that of a cached package, a signature or a partial
/// download.
pub open spec fn is_package_file_name(n: Seq<char>) -> bool {
    ends_with_seq(n, ".pkg.tar.zst"@) || ends_with_seq(n, ".pkg.tar.xz"@) || ends_with_seq(
        n,
        ".sig"@,
    ) || ends_with_seq(n, ".part"@)
}

/// Whether `name` is that of a cached package, a signature or a partial
/// download.
pub fn is_package_file(name: &str) -> (b: bool)
    ensures
        b == is_package_file_name(name@),
{
    str_ends_with(name, ".pkg.tar.zst") || str_ends_with(name, ".pkg.tar.xz") || str_ends_with(
        name,
        ".sig",
    ) || str_ends_with(name, ".part")
}

/// The package files among the entries, in order.
pub open spec fn package_entries(es: Seq<ScannedEntry>) -> Seq<ScannedEntry>
    decreases es.len(),
{
    if es.len() == 0 {
        es
    } else if is_package_file_name(es.last().name@) {
        package_entries(es.drop_last()).push(es.last())
    } else {
        package_entries(es.drop_last())
    }
}

/// The paths of the entries.
pub open spec fn entry_paths(es: Seq<ScannedEntry>) -> Seq<Seq<char>> {
    es.map_values(|e: ScannedEntry| e.path@)
}

/// The bytes of the entries together.
pub open spec fn entry_bytes(es: Seq<ScannedEntry>) -> nat
    decreases es.len(),
{
    if es.len() == 0 {
        0
    } else {
        entry_bytes(es.drop_last()) + es.last().size_bytes as nat
    }
}

/// The entries that a collection keeps: the package files, or all of them.
pub open spec fn chosen_entries(es: Seq<ScannedEntry>, packages_only: bool) -> Seq<ScannedEntry> {
    if packages_only {
        package_entries(es)
    } else {
        es
    }
}

/// Keeping entries commutes with reading one more entry.
proof fn lemma_chosen_step(es: Seq<ScannedEntry>, j: int, packages_only: bool)
    requires
        0 <= j < es.len(),
    ensures
        chosen_entries(es.take(j + 1), packages_only) == (if !packages_only
            || is_package_file_name(es[j].name@) {
            chosen_entries(es.take(j), packages_only).push(es[j])
        } else {
            chosen_entries(es.take(j), packages_only)
        }),
{
    assert(es.take(j + 1).drop_last() =~= es.take(j));
    assert(es.take(j + 1).last() == es[j]);
    if !packages_only {
        assert(es.take(j + 1) =~= es.take(j).push(es[j]));
    }
}

/// The bytes of a list with one more entry.
proof fn lemma_entry_bytes_push(es: Seq<ScannedEntry>, e: ScannedEntry)
    ensures
        entry_bytes(es.push(e)) == entry_bytes(es) + e.size_bytes,
{
    assert(es.push(e).drop_last() =~= es);
}

/// The paths and total size of the chosen entries, collected in order.
pub(crate) fn collect_entries(entries: &Vec<ScannedEntry>, packages_only: bool) -> (r: (Vec<String>, u64))
    requires
        entry_bytes(chosen_entries(entries@, packages_only)) <= u64::MAX,
    ensures
        strings_view(r.0@) == entry_paths(chosen_entries(entries@, packages_only)),
        r.1 == entry_bytes(chosen_entries(entries@, packages_only)),
{
    let mut files: Vec<String> = Vec::new();
    let mut total: u64 = 0;
    let mut i: usize = 0;
    assert(entries@.take(0) =~= Seq::<ScannedEntry>::empty());
    assert(strings_view(files@) =~= entry_paths(chosen_entries(entries@.take(0), packages_only)));
    while i < entries.len()
        invariant
            i <= entries@.len(),
            entry_bytes(chosen_entries(entries@, packages_only)) <= u64::MAX,
            strings_view(files@) == entry_paths(chosen_entries(entries@.take(i as int), packages_only)),
            total == entry_bytes(chosen_entries(entries@.take(i as int), packages_only)),
        decreases entries@.len() - i,
    {
        let ghost pre = chosen_entries(entries@.take(i as int), packages_only);
        proof {
            lemma_chosen_step(entries@, i as int, packages_only);
            lemma_entry_bytes_prefix(entries@, i + 1, packages_only);
        }
        let e = &entries[i];
        if !packages_only || is_package_file(e.name.as_str()) {
            let ghost before = files@;
            proof {
                lemma_entry_bytes_push(pre, *e);
            }
            files.push(e.path.clone());
            total = total + e.size_bytes;
            assert(strings_view(files@) =~= strings_view(before).push(e.path@));
            assert(entry_paths(pre.push(*e)) =~= entry_paths(pre).push(e.path@));
        }
        i = i + 1;
    }
    assert(entries@.take(entries@.len() as int) =~= entries@);
    (files, total)
}

/// The bytes of the chosen entries of a prefix never exceed those of the
/// whole.
proof fn lemma_entry_bytes_prefix(es: Seq<ScannedEntry>, j: int, packages_only: bool)
    requires
        0 <= j <= es.len(),
    ensures
        entry_bytes(chosen_entries(es.take(j), packages_only)) <= entry_bytes(
            chosen_entries(es, packages_only),
        ),
    decreases es.len() - j,
{
    if j < es.len() {
        lemma_entry_bytes_prefix(es, j + 1, packages_only);
        lemma_chosen_step(es, j, packages_only);
        lemma_entry_bytes_push(chosen_entries(es.take(j), packages_only), es[j]);
    } else {
        assert(es.take(j) =~= es);
    }
}

/// The pacman cache as a target: every cached package, signature and
/// partial download among the entries, with their total size; none when
/// there are no such files.
pub fn pacman_cache_target(pacman_dir: String, entries: &Vec<ScannedEntry>, requires_elevation: bool) -> (r: Option<CleanTarget>)
    requires
        entry_bytes(package_entries(entries@)) <= u64::MAX,
    ensures
        r is None <==> package_entries(entries@).len() == 0,
        r matches Some(t) ==> target_is(
            t,
            "Pacman Package Cache"@,
            pacman_dir@,
            CleanCategory::PackageCache,
            entry_bytes(package_entries(entries@)),
            package_entries(entries@).len(),
            requires_elevation,
            false,
            entry_paths(package_entries(entries@)),
            decimal(package_entries(entries@).len()) + " cached packages & signatures"@,
        ),
{
    let (files, total) = collect_entries(entries, true);
    assert(strings_view(files@).len() == files@.len());
    assert(entry_paths(package_entries(entries@)).len() == package_entries(entries@).len());
    if files.len() == 0 {
        return None;
    }
    let count = files.len();
    let digits = decimal_string(count as u64);
    let reason = concat2(digits.as_str(), " cached packages & signatures");
    Some(
        CleanTarget::new(
            owned("Pacman Package Cache"),
            pacman_dir,
            CleanCategory::PackageCache,
            total,
            count,
            requires_elevation,
            false,
            files,
            reason,
        ),
    )
}

/// The trash bin as a target: every entry of its `files` and `info`
/// directories, with their total size; none when both are empty.
pub fn trash_target(trash_dir: String, entries: &Vec<ScannedEntry>, requires_elevation: bool) -> (r: Option<CleanTarget>)
    requires
        entry_bytes(entries@) <= u64::MAX,
    ensures
        r is None <==> entries@.len() == 0,
        r matches Some(t) ==> target_is(
            t,
            "User Trash Bin"@,
            trash_dir@,
            CleanCategory::Trash,
            entry_bytes(entries@),
            entries@.len(),
            requires_elevation,
            false,
            entry_paths(entries@),
            decimal(entries@.len()) + " files in Trash"@,
        ),
{
    let (files, total) = collect_entries(entries, false);
    assert(strings_view(files@).len() == files@.len());
    assert(entry_paths(entries@).len() == entries@.len());
    if files.len() == 0 {
        return None;
    }
    let count = files.len();
    let digits = decimal_string(count as u64);
    let reason = concat2(digits.as_str(), " files in Trash");
    Some(
        CleanTarget::new(
            owned("User Trash Bin"),
            trash_dir,
            CleanCategory::Trash,
            total,
            count,
            requires_elevation,
            false,
            files,
            reason,
        ),
    )
}

// ---------------------------------------------------------------------------
// Application caches under ~/.cache

/// The title, category and description (after the file count) of a cache
/// directory that is known by name.
pub open spec fn known_cache(name: Seq<char>) -> Option<(Seq<char>, CleanCategory, Seq<char>)> {
    if name == "thumbnails"@ {
        Some(("User Thumbnail Cache"@, CleanCategory::Thumbnails, " cached image thumbnails"@))
    } else if name == "yay"@ {
        Some(("Yay AUR Build Cache"@, CleanCategory::PackageCache, " build artifacts & packages"@))
    } else if name == "paru"@ {
        Some(("Paru AUR Build Cache"@, CleanCategory::PackageCache, " build artifacts & packages"@))
    } else if name == "uv"@ {
        Some(("uv Python Cache"@, CleanCategory::PackageCache, " cached Python packages & wheels"@))
    } else if name == "pip"@ {
        Some(("pip Cache"@, CleanCategory::PackageCache, " cached pip wheels"@))
    } else if name == "ccache"@ {
        Some(("ccache Compiler Cache"@, CleanCategory::LogsCache, " compiled objects"@))
    } else if name == "google-chrome"@ {
        Some(("Google Chrome Cache"@, CleanCategory::LogsCache, " browser cache files"@))
    } else if name == "BraveSoftware"@ {
        Some(("Brave Browser Cache"@, CleanCategory::LogsCache, " browser cache files"@))
    } else if name == "go-build"@ {
        Some(("Go Build Cache"@, CleanCategory::LogsCache, " cached Go build targets"@))
    } else if name == "flatpak"@ {
        Some(("Flatpak Cache"@, CleanCategory::LogsCache, " flatpak cache entries"@))
    } else {
        None
    }
}

/// The title, category and description (after the file count) of a cache
/// directory known by name.
fn known_cache_of(name: &str) -> (r: Option<(&'static str, CleanCategory, &'static str)>)
    ensures
        match r {
            Some((t, c, d)) => known_cache(name@) == Some((t@, c, d@)),
            None => known_cache(name@) is None,
        },
{
    if str_equal(name, "thumbnails") {
        Some(("User Thumbnail Cache", CleanCategory::Thumbnails, " cached image thumbnails"))
    } else if str_equal(name, "yay") {
        Some(("Yay AUR Build Cache", CleanCategory::PackageCache, " build artifacts & packages"))
    } else if str_equal(name, "paru") {
        Some(("Paru AUR Build Cache", CleanCategory::PackageCache, " build artifacts & packages"))
    } else if str_equal(name, "uv") {
        Some(("uv Python Cache", CleanCategory::PackageCache, " cached Python packages & wheels"))
    } else if str_equal(name, "pip") {
        Some(("pip Cache", CleanCategory::PackageCache, " cached pip wheels"))
    } else if str_equal(name, "ccache") {
        Some(("ccache Compiler Cache", CleanCategory::LogsCache, " compiled objects"))
    } else if str_equal(name, "google-chrome") {
        Some(("Google Chrome Cache", CleanCategory::LogsCache, " browser cache files"))
    } else if str_equal(name, "BraveSoftware") {
        Some(("Brave Browser Cache", CleanCategory::LogsCache, " browser cache files"))
    } else if str_equal(name, "go-build") {
        Some(("Go Build Cache", CleanCategory::LogsCache, " cached Go build targets"))
    } else if str_equal(name, "flatpak") {
        Some(("Flatpak Cache", CleanCategory::LogsCache, " flatpak cache entries"))
    } else {
        None
    }
}

/// Ten mebibytes: the least size of an unknown stale cache worth reporting.
pub const STALE_CACHE_MIN_BYTES: u64 = 10485760;

/// The title, category and description of the target that a cache directory
/// makes, or none: a directory without a name, with no files or under a
/// kibibyte makes none; a known cache makes its own; any other makes one
/// only when it is stale and at least ten mebibytes.
pub open spec fn user_cache_kind(d: ScannedDirectory, age_threshold_days: u64) -> Option<
    (Seq<char>, CleanCategory, Seq<char>),
> {
    match path_file_name(d.path@) {
        None => None,
        Some(name) => if d.item_count == 0 || d.size_bytes < 1024 {
            None
        } else {
            match known_cache(name) {
                Some((title, category, what)) => Some(
                    (title, category, decimal(d.item_count as nat) + what),
                ),
                None => if d.stale && d.size_bytes >= STALE_CACHE_MIN_BYTES {
                    Some(
                        (
                            "App Cache ("@ + name + ")"@,
                            CleanCategory::LogsCache,
                            "Cache older than "@ + decimal(age_threshold_days as nat) + " days"@,
                        ),
                    )
                } else {
                    None
                },
            }
        },
    }
}

/// Whether `t` is the target that cache directory `d` makes.
pub open spec fn is_user_cache_target(t: CleanTarget, d: ScannedDirectory, age_threshold_days: u64) -> bool {
    match user_cache_kind(d, age_threshold_days) {
        Some((title, category, reason)) => target_is(
            t,
            title,
            d.path@,
            category,
            d.size_bytes as nat,
            d.item_count as nat,
            d.requires_elevation,
            true,
            Seq::empty(),
            reason,
        ),
        None => false,
    }
}

/// The cleanup target that one directory under `~/.cache` makes, if any.
pub fn user_cache_target(dir: &ScannedDirectory, age_threshold_days: u64) -> (r: Option<CleanTarget>)
    ensures
        r is None <==> user_cache_kind(*dir, age_threshold_days) is None,
        r matches Some(t) ==> is_user_cache_target(t, *dir, age_threshold_days),
{
    let name = match file_name_of(dir.path.as_str()) {
        Some(n) => n,
        None => return None,
    };
    if dir.item_count == 0 || dir.size_bytes < 1024 {
        return None;
    }
    let (title, category, reason) = match known_cache_of(name.as_str()) {
        Some((title, category, what)) => {
            let digits = decimal_string(dir.item_count as u64);
            (owned(title), category, concat2(digits.as_str(), what))
        },
        None => {
            if dir.stale && dir.size_bytes >= STALE_CACHE_MIN_BYTES {
                let digits = decimal_string(age_threshold_days);
                (
                    concat3("App Cache (", name.as_str(), ")"),
                    CleanCategory::LogsCache,
                    concat3("Cache older than ", digits.as_str(), " days"),
                )
            } else {
                return None;
            }
        },
    };
    let files: Vec<String> = Vec::new();
    assert(strings_view(files@) =~= Seq::<Seq<char>>::empty());
    Some(
        CleanTarget::new(
            title,
            dir.path.clone(),
            category,
            dir.size_bytes,
            dir.item_count,
            dir.requires_elevation,
            true,
            files,
            reason,
        ),
    )
}

/// The cache directories that make a target, in order.
pub open spec fn cache_hits(ds: Seq<ScannedDirectory>, age_threshold_days: u64) -> Seq<ScannedDirectory>
    decreases ds.len(),
{
    if ds.len() == 0 {
        ds
    } else if user_cache_kind(ds.last(), age_threshold_days) is Some {
        cache_hits(ds.drop_last(), age_threshold_days).push(ds.last())
    } else {
        cache_hits(ds.drop_last(), age_threshold_days)
    }
}

/// The cleanup targets that the directories directly under `~/.cache` make,
/// in the order the directories were read.
pub fn user_cache_targets(dirs: &Vec<ScannedDirectory>, age_threshold_days: u64) -> (r: Vec<CleanTarget>)
    ensures
        r@.len() == cache_hits(dirs@, age_threshold_days).len(),
        forall|i: int|
            0 <= i < r@.len() ==> is_user_cache_target(
                #[trigger] r@[i],
                cache_hits(dirs@, age_threshold_days)[i],
                age_threshold_days,
            ),
{
    let mut targets: Vec<CleanTarget> = Vec::new();
    let mut i: usize = 0;
    while i < dirs.len()
        invariant
            i <= dirs@.len(),
            targets@.len() == cache_hits(dirs@.take(i as int), age_threshold_days).len(),
            forall|k: int|
                0 <= k < targets@.len() ==> is_user_cache_target(
                    #[trigger] targets@[k],
                    cache_hits(dirs@.take(i as int), age_threshold_days)[k],
                    age_threshold_days,
                ),
        decreases dirs@.len() - i,
    {
        let ghost pre = dirs@.take(i as int);
        let ghost post = dirs@.take(i + 1);
        assert(post.drop_last() =~= pre);
        assert(post.last() == dirs@[i as int]);
        match user_cache_target(&dirs[i], age_threshold_days) {
            Some(t) => {
                targets.push(t);
            },
            None => {},
        }
        i = i + 1;
    }
    assert(dirs@.take(dirs@.len() as int) =~= dirs@);
    targets
}

// ---------------------------------------------------------------------------
// Dotfiles backups

/// The title and description of the target that a backup snapshot directory
/// makes: only a stale one makes one.
pub open spec fn backup_kind(d: ScannedDirectory, age_threshold_days: u64) -> Option<(Seq<char>, Seq<char>)> {
    if d.stale {
        let name = match path_file_name(d.path@) {
            Some(n) => n,
            None => "backup"@,
        };
        Some(
            (
                "Stale Dotfiles Backup ("@ + name + ")"@,
                "Backup snapshot older than "@ + decimal(age_threshold_days as nat) + " days"@,
            ),
        )
    } else {
        None
    }
}

/// Whether `t` is the target that backup directory `d` makes.
pub open spec fn is_backup_target(t: CleanTarget, d: ScannedDirectory, age_threshold_days: u64) -> bool {
    match backup_kind(d, age_threshold_days) {
        Some((title, reason)) => target_is(
            t,
            title,
            d.path@,
            CleanCategory::Backups,
            d.size_bytes as nat,
            d.item_count as nat,
            d.requires_elevation,
            true,
            Seq::empty(),
            reason,
        ),
        None => false,
    }
}

/// The backup directories that make a target, in order.
pub open spec fn backup_hits(ds: Seq<ScannedDirectory>) -> Seq<ScannedDirectory>
    decreases ds.len(),
{
    if ds.len() == 0 {
        ds
    } else if ds.last().stale {
        backup_hits(ds.drop_last()).push(ds.last())
    } else {
        backup_hits(ds.drop_last())
    }
}

/// The cleanup targets that the snapshot directories of the dotfiles backup
/// directory make: one for each that is older than the threshold, in order.
pub fn dotfiles_backup_targets(dirs: &Vec<ScannedDirectory>, age_threshold_days: u64) -> (r: Vec<CleanTarget>)
    ensures
        r@.len() == backup_hits(dirs@).len(),
        forall|i: int|
            0 <= i < r@.len() ==> is_backup_target(#[trigger] r@[i], backup_hits(dirs@)[i], age_threshold_days),
{
    let mut targets: Vec<CleanTarget> = Vec::new();
    let mut i: usize = 0;
    while i < dirs.len()
        invariant
            i <= dirs@.len(),
            targets@.len() == backup_hits(dirs@.take(i as int)).len(),
            forall|k: int|
                0 <= k < targets@.len() ==> is_backup_target(
                    #[trigger] targets@[k],
                    backup_hits(dirs@.take(i as int))[k],
                    age_threshold_days,
                ),
        decreases dirs@.len() - i,
    {
        let ghost pre = dirs@.take(i as int);
        let ghost post = dirs@.take(i + 1);
        assert(post.drop_last() =~= pre);
        assert(post.last() == dirs@[i as int]);
        let d = &dirs[i];
        if d.stale {
            let name = match file_name_of(d.path.as_str()) {
                Some(n) => n,
                None => owned("backup"),
            };
            let digits = decimal_string(age_threshold_days);
            let files: Vec<String> = Vec::new();
            assert(strings_view(files@) =~= Seq::<Seq<char>>::empty());
            let t = CleanTarget::new(
                concat3("Stale Dotfiles Backup (", name.as_str(), ")"),
                d.path.clone(),
                CleanCategory::Backups,
                d.size_bytes,
                d.item_count,
                d.requires_elevation,
                true,
                files,
                concat3("Backup snapshot older than ", digits.as_str(), " days"),
            );
            targets.push(t);
        }
        i = i + 1;
    }
    assert(dirs@.take(dirs@.len() as int) =~= dirs@);
    targets
}

// ---------------------------------------------------------------------------
// Systemd journal

/// The directory of the systemd journal.
pub open spec fn journal_dir() -> Seq<char> {
    "/var/log/journal"@
}

/// How the journal target describes itself.
pub open spec fn journal_reason() -> Seq<char> {
    "Archived journals (vacuum with: sudo journalctl --vacuum-time=14d)"@
}

/// The journal as a target, sized from its directory: none when it holds no
/// bytes; its file count is at least one.
pub fn journal_dir_target(size_bytes: u64, item_count: usize, requires_elevation: bool) -> (r: Option<CleanTarget>)
    ensures
        r is None <==> size_bytes == 0,
        r matches Some(t) ==> target_is(
            t,
            "Systemd Journal Logs"@,
            journal_dir(),
            CleanCategory::LogsCache,
            size_bytes as nat,
            if item_count == 0 {
                1
            } else {
                item_count as nat
            },
            requires_elevation,
            false,
            Seq::empty(),
            journal_reason(),
        ),
{
    if size_bytes == 0 {
        return None;
    }
    let count = if item_count == 0 {
        1
    } else {
        item_count
    };
    let files: Vec<String> = Vec::new();
    assert(strings_view(files@) =~= Seq::<Seq<char>>::empty());
    Some(
        CleanTarget::new(
            owned("Systemd Journal Logs"),
            owned("/var/log/journal"),
            CleanCategory::LogsCache,
            size_bytes,
            count,
            requires_elevation,
            false,
            files,
            owned("Archived journals (vacuum with: sudo journalctl --vacuum-time=14d)"),
        ),
    )
}

/// The journal as a target, sized from what `journalctl --disk-usage`
/// reported: none unless that is above zero; it always needs root.
pub fn journal_usage_target(reported_bytes: Option<u64>) -> (r: Option<CleanTarget>)
    ensures
        r is None <==> !(reported_bytes matches Some(b) && b > 0),
        r matches Some(t) ==> target_is(
            t,
            "Systemd Journal Logs"@,
            journal_dir(),
            CleanCategory::LogsCache,
            reported_bytes.unwrap() as nat,
            1,
            true,
            false,
            Seq::empty(),
            journal_reason(),
        ),
{
    match reported_bytes {
        Some(bytes) => {
            if bytes == 0 {
                return None;
            }
            let files: Vec<String> = Vec::new();
            assert(strings_view(files@) =~= Seq::<Seq<char>>::empty());
            Some(
                CleanTarget::new(
                    owned("Systemd Journal Logs"),
                    owned("/var/log/journal"),
                    CleanCategory::LogsCache,
                    bytes,
                    1,
                    true,
                    false,
                    files,
                    owned("Archived journals (vacuum with: sudo journalctl --vacuum-time=14d)"),
                ),
            )
        },
        None => None,
    }
}

/// The known application caches under `~/.cache`: a directory named
/// `thumbnails`, `yay`, `paru`, `uv`, `pip`, `ccache`, `google-chrome`,
/// `BraveSoftware`, `go-build` or `flatpak` that holds files and at least a
/// kibibyte is always offered, whatever its age, under its own title and
/// category, its reason being its file count and what the files are.
pub proof fn lemma_known_caches_always_offered(d: ScannedDirectory, age_threshold_days: u64, name: Seq<char>)
    requires
        path_file_name(d.path@) == Some(name),
        d.item_count > 0,
        d.size_bytes >= 1024,
    ensures
        name == "thumbnails"@ ==> user_cache_kind(d, age_threshold_days) == Some(
            ("User Thumbnail Cache"@, CleanCategory::Thumbnails, decimal(d.item_count as nat) + " cached image thumbnails"@),
        ),
        name == "yay"@ ==> user_cache_kind(d, age_threshold_days) == Some(
            ("Yay AUR Build Cache"@, CleanCategory::PackageCache, decimal(d.item_count as nat) + " build artifacts & packages"@),
        ),
        name == "paru"@ ==> user_cache_kind(d, age_threshold_days) == Some(
            ("Paru AUR Build Cache"@, CleanCategory::PackageCache, decimal(d.item_count as nat) + " build artifacts & packages"@),
        ),
        name == "uv"@ ==> user_cache_kind(d, age_threshold_days) == Some(
            ("uv Python Cache"@, CleanCategory::PackageCache, decimal(d.item_count as nat) + " cached Python packages & wheels"@),
        ),
        name == "pip"@ ==> user_cache_kind(d, age_threshold_days) == Some(
            ("pip Cache"@, CleanCategory::PackageCache, decimal(d.item_count as nat) + " cached pip wheels"@),
        ),
        name == "ccache"@ ==> user_cache_kind(d, age_threshold_days) == Some(
            ("ccache Compiler Cache"@, CleanCategory::LogsCache, decimal(d.item_count as nat) + " compiled objects"@),
        ),
        name == "google-chrome"@ ==> user_cache_kind(d, age_threshold_days) == Some(
            ("Google Chrome Cache"@, CleanCategory::LogsCache, decimal(d.item_count as nat) + " browser cache files"@),
        ),
        name == "BraveSoftware"@ ==> user_cache_kind(d, age_threshold_days) == Some(
            ("Brave Browser Cache"@, CleanCategory::LogsCache, decimal(d.item_count as nat) + " browser cache files"@),
        ),
        name == "go-build"@ ==> user_cache_kind(d, age_threshold_days) == Some(
            ("Go Build Cache"@, CleanCategory::LogsCache, decimal(d.item_count as nat) + " cached Go build targets"@),
        ),
        name == "flatpak"@ ==> user_cache_kind(d, age_threshold_days) == Some(
            ("Flatpak Cache"@, CleanCategory::LogsCache, decimal(d.item_count as nat) + " flatpak cache entries"@),
        ),
{
    reveal_strlit("thumbnails");
    reveal_strlit("yay");
    reveal_strlit("paru");
    reveal_strlit("uv");
    reveal_strlit("pip");
    reveal_strlit("ccache");
    reveal_strlit("google-chrome");
    reveal_strlit("BraveSoftware");
    reveal_strlit("go-build");
    reveal_strlit("flatpak");
    if name == "yay"@ {
        assert("yay"@.len() != "thumbnails"@.len());
    }
    if name == "paru"@ {
        assert("paru"@.len() != "thumbnails"@.len());
        assert("paru"@.len() != "yay"@.len());
    }
    if name == "uv"@ {
        assert("uv"@.len() != "thumbnails"@.len());
        assert("uv"@.len() != "yay"@.len());
        assert("uv"@.len() != "paru"@.len());
    }
    if name == "pip"@ {
        assert("pip"@.len() != "thumbnails"@.len());
        assert("pip"@[0] != "yay"@[0]);
        assert("pip"@.len() != "paru"@.len());
        assert("pip"@.len() != "uv"@.len());
    }
    if name == "ccache"@ {
        assert("ccache"@.len() != "thumbnails"@.len());
        assert("ccache"@.len() != "yay"@.len());
        assert("ccache"@.len() != "paru"@.len());
        assert("ccache"@.len() != "uv"@.len());
        assert("ccache"@.len() != "pip"@.len());
    }
    if name == "google-chrome"@ {
        assert("google-chrome"@.len() != "thumbnails"@.len());
        assert("google-chrome"@.len() != "yay"@.len());
        assert("google-chrome"@.len() != "paru"@.len());
        assert("google-chrome"@.len() != "uv"@.len());
        assert("google-chrome"@.len() != "pip"@.len());
        assert("google-chrome"@.len() != "ccache"@.len());
    }
    if name == "BraveSoftware"@ {
        assert("BraveSoftware"@.len() != "thumbnails"@.len());
        assert("BraveSoftware"@.len() != "yay"@.len());
        assert("BraveSoftware"@.len() != "paru"@.len());
        assert("BraveSoftware"@.len() != "uv"@.len());
        assert("BraveSoftware"@.len() != "pip"@.len());
        assert("BraveSoftware"@.len() != "ccache"@.len());
        assert("BraveSoftware"@[0] != "google-chrome"@[0]);
    }
    if name == "go-build"@ {
        assert("go-build"@.len() != "thumbnails"@.len());
        assert("go-build"@.len() != "yay"@.len());
        assert("go-build"@.len() != "paru"@.len());
        assert("go-build"@.len() != "uv"@.len());
        assert("go-build"@.len() != "pip"@.len());
        assert("go-build"@.len() != "ccache"@.len());
        assert("go-build"@.len() != "google-chrome"@.len());
        assert("go-build"@.len() != "BraveSoftware"@.len());
    }
    if name == "flatpak"@ {
        assert("flatpak"@.len() != "thumbnails"@.len());
        assert("flatpak"@.len() != "yay"@.len());
        assert("flatpak"@.len() != "paru"@.len());
        assert("flatpak"@.len() != "uv"@.len());
        assert("flatpak"@.len() != "pip"@.len());
        assert("flatpak"@.len() != "ccache"@.len());
        assert("flatpak"@.len() != "google-chrome"@.len());
        assert("flatpak"@.len() != "BraveSoftware"@.len());
        assert("flatpak"@.len() != "go-build"@.len());
    }
}

/// A directory under `~/.cache` that is not one of the known caches is
/// offered only when it is stale and at least ten mebibytes, as
/// `App Cache (<name>)`.
pub proof fn lemma_unknown_cache_needs_age_and_size(d: ScannedDirectory, age_threshold_days: u64, name: Seq<char>)
    requires
        path_file_name(d.path@) == Some(name),
        known_cache(name) is None,
    ensures
        user_cache_kind(d, age_threshold_days) is Some <==> (d.item_count > 0 && d.size_bytes >= 1024
            && d.stale && d.size_bytes >= 10 * 1024 * 1024),
        user_cache_kind(d, age_threshold_days) matches Some((title, category, _)) ==> title == "App Cache ("@
            + name + ")"@ && category == CleanCategory::LogsCache,
{
}

} // verus!
