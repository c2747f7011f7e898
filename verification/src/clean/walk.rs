//! The targets that one walk of the scan roots makes: build artifact trees,
//! loose files of a known kind (compiled Python files, stale logs, stale
//! temporary files) gathered per root, and the largest files seen. Walking,
//! sizing and reading ages is the caller's part.
use crate::clean::classifier::{CleanCategory, CleanTarget};
use crate::clean::hotspots::HotspotItem;
use crate::clean::sources::{
    artifact_name, artifact_project, build_title, collect_entries, entry_bytes, entry_paths,
    format_build_target_title, target_is, ScannedDirectory, ScannedEntry,
};
use crate::paths::{file_name_of, path_file_name};
use crate::text::{concat2, concat3, decimal, decimal_string, ends_with_seq, owned, str_ends_with, str_equal, strings_view};
use vstd::prelude::*;

verus! {

/// A build artifact tree found by the walk, as a target of its own: titled
/// after its kind and project, deleted as a whole.
pub fn artifact_tree_target(dir: &ScannedDirectory) -> (t: CleanTarget)
    ensures
        target_is(
            t,
            build_title(artifact_name(dir.path@), artifact_project(dir.path@)),
            dir.path@,
            CleanCategory::Artifacts,
            dir.size_bytes as nat,
            dir.item_count as nat,
            dir.requires_elevation,
            true,
            Seq::empty(),
            decimal(dir.item_count as nat) + " files in build artifact tree"@,
        ),
{
    let title = format_build_target_title(dir.path.as_str());
    let digits = decimal_string(dir.item_count as u64);
    let reason = concat2(digits.as_str(), " files in build artifact tree");
    let files: Vec<String> = Vec::new();
    assert(strings_view(files@) =~= Seq::<Seq<char>>::empty());
    CleanTarget::new(
        title,
        dir.path.clone(),
        CleanCategory::Artifacts,
        dir.size_bytes,
        dir.item_count,
        dir.requires_elevation,
        true,
        files,
        reason,
    )
}

/// Kinds of loose files that the walk gathers per scan root.
#[derive(Debug, Clone, Copy, PartialEq, Eq, Structural)]
pub enum LooseKind {
    /// Compiled Python files (`*.pyc`).
    CompiledPython,
    /// Log files older than the age threshold.
    StaleLogs,
    /// Entries of `/tmp` or `/var/tmp` older than the age threshold.
    StaleTemp,
}

/// The title of the target that gathers loose files of a kind under `root`.
pub open spec fn loose_title(kind: LooseKind, root: Seq<char>) -> Seq<char> {
    match kind {
        LooseKind::CompiledPython => "Compiled Python Files ("@ + root + ")"@,
        LooseKind::StaleLogs => "Stale Log Files ("@ + root + ")"@,
        LooseKind::StaleTemp => "Stale Temporary Files ("@ + root + ")"@,
    }
}

/// The category of loose files of a kind.
pub open spec fn loose_category(kind: LooseKind) -> CleanCategory {
    match kind {
        LooseKind::CompiledPython => CleanCategory::Artifacts,
        _ => CleanCategory::LogsCache,
    }
}

/// What the reason says after the number of files.
pub open spec fn loose_reason(kind: LooseKind) -> Seq<char> {
    match kind {
        LooseKind::CompiledPython => " compiled Python files"@,
        LooseKind::StaleLogs => " log files older than the age threshold"@,
        LooseKind::StaleTemp => " temporary files older than the age threshold"@,
    }
}

/// The loose files of one kind found under `root`, as one target that lists
/// them with their total size; none when there are none.
pub fn loose_files_target(root: String, kind: LooseKind, entries: &Vec<ScannedEntry>, requires_elevation: bool) -> (r: Option<CleanTarget>)
    requires
        entry_bytes(entries@) <= u64::MAX,
    ensures
        r is None <==> entries@.len() == 0,
        r matches Some(t) ==> target_is(
            t,
            loose_title(kind, root@),
            root@,
            loose_category(kind),
            entry_bytes(entries@),
            entries@.len(),
            requires_elevation,
            false,
            entry_paths(entries@),
            decimal(entries@.len()) + loose_reason(kind),
        ),
{
    let (files, total) = collect_entries(entries, false);
    assert(strings_view(files@).len() == files@.len());
    assert(entry_paths(entries@).len() == entries@.len());
    if files.len() == 0 {
        return None;
    }
    let count = files.len();
    let digits = decimal_string(count as u64);
    let (title, category, reason) = match kind {
        LooseKind::CompiledPython => (
            concat3("Compiled Python Files (", root.as_str(), ")"),
            CleanCategory::Artifacts,
            concat2(digits.as_str(), " compiled Python files"),
        ),
        LooseKind::StaleLogs => (
            concat3("Stale Log Files (", root.as_str(), ")"),
            CleanCategory::LogsCache,
            concat2(digits.as_str(), " log files older than the age threshold"),
        ),
        LooseKind::StaleTemp => (
            concat3("Stale Temporary Files (", root.as_str(), ")"),
            CleanCategory::LogsCache,
            concat2(digits.as_str(), " temporary files older than the age threshold"),
        ),
    };
    Some(CleanTarget::new(title, root, category, total, count, requires_elevation, false, files, reason))
}

/// The title of a hotspot: the file's final component, or its whole path
/// where it has none.
pub open spec fn hotspot_title(path: Seq<char>) -> Seq<char> {
    match path_file_name(path) {
        Some(n) => "Large File ("@ + n + ")"@,
        None => "Large File ("@ + path + ")"@,
    }
}

/// One of the largest files seen, as a target of its own.
pub fn hotspot_target(item: &HotspotItem, requires_elevation: bool) -> (t: CleanTarget)
    ensures
        target_is(
            t,
            hotspot_title(item.path@),
            item.path@,
            CleanCategory::Hotspots,
            item.size_bytes as nat,
            1,
            requires_elevation,
            false,
            Seq::empty(),
            "Among the largest files scanned"@,
        ),
{
    let title = match file_name_of(item.path.as_str()) {
        Some(n) => concat3("Large File (", n.as_str(), ")"),
        None => concat3("Large File (", item.path.as_str(), ")"),
    };
    let files: Vec<String> = Vec::new();
    assert(strings_view(files@) =~= Seq::<Seq<char>>::empty());
    CleanTarget::new(
        title,
        item.path.clone(),
        CleanCategory::Hotspots,
        item.size_bytes,
        1,
        requires_elevation,
        false,
        files,
        owned("Among the largest files scanned"),
    )
}

/// Whether the exclusion `ex` names `path`: the path is `ex`, or ends in
/// `/` and `ex` (so `.git` excludes every `.git` directory, and
/// `.cargo/registry` that tree under any home).
pub open spec fn excluded_by(path: Seq<char>, ex: Seq<char>) -> bool {
    path == ex || ends_with_seq(path, "/"@ + ex)
}

/// Whether one of the exclusions names `path`; the walk neither enters nor
/// reports such a path.
pub fn is_excluded(path: &str, exclude: &Vec<String>) -> (b: bool)
    ensures
        b == exists|i: int| 0 <= i < exclude@.len() && excluded_by(path@, #[trigger] exclude@[i]@),
{
    let mut i: usize = 0;
    while i < exclude.len()
        invariant
            i <= exclude@.len(),
            forall|k: int| 0 <= k < i ==> !excluded_by(path@, #[trigger] exclude@[k]@),
        decreases exclude@.len() - i,
    {
        let ex = exclude[i].as_str();
        let slashed = concat2("/", ex);
        if str_equal(path, ex) || str_ends_with(path, slashed.as_str()) {
            assert(excluded_by(path@, exclude@[i as int]@));
            return true;
        }
        i = i + 1;
    }
    false
}

} // verus!
