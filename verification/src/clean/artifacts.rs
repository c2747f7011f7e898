//! Recognition of build artifact trees (Cargo, Node, Python) and compiled
//! Python files.
use crate::paths::{extension_of, file_name_of, join_path, parent_of, path_exists, path_extension, path_file_name, path_join, path_parent};
use crate::text::{eq_ignore_ascii_case_seq, str_eq_ignore_ascii_case, str_equal};
use vstd::prelude::*;

verus! {

/// What the name of a directory says about it as a build artifact.
#[derive(Debug, Clone, Copy, PartialEq, Eq, Structural)]
pub enum ArtifactDirKind {
    /// `target`: an artifact when `Cargo.toml` sits beside it or a
    /// `CACHEDIR.TAG` inside it.
    CargoTarget,
    /// `node_modules`: an artifact when `package.json` sits beside it.
    NodeModules,
    /// Python caches (`__pycache__`, `.pytest_cache`, `.mypy_cache`,
    /// `.ruff_cache`): always artifacts.
    PythonCache,
    /// Anything else: never an artifact.
    Other,
}

/// The kind of a directory with final component `name`.
pub open spec fn artifact_dir_kind(name: Option<Seq<char>>) -> ArtifactDirKind {
    match name {
        Some(n) => if n == "target"@ {
            ArtifactDirKind::CargoTarget
        } else if n == "node_modules"@ {
            ArtifactDirKind::NodeModules
        } else if n == "__pycache__"@ || n == ".pytest_cache"@ || n == ".mypy_cache"@ || n
            == ".ruff_cache"@ {
            ArtifactDirKind::PythonCache
        } else {
            ArtifactDirKind::Other
        },
        None => ArtifactDirKind::Other,
    }
}

/// The kind of a directory with final component `name`.
pub fn classify_artifact_dir_name(name: Option<&str>) -> (k: ArtifactDirKind)
    ensures
        k == artifact_dir_kind(
            match name {
                Some(n) => Some(n@),
                None => None,
            },
        ),
{
    match name {
        Some(n) => if str_equal(n, "target") {
            ArtifactDirKind::CargoTarget
        } else if str_equal(n, "node_modules") {
            ArtifactDirKind::NodeModules
        } else if str_equal(n, "__pycache__") || str_equal(n, ".pytest_cache") || str_equal(
            n,
            ".mypy_cache",
        ) || str_equal(n, ".ruff_cache") {
            ArtifactDirKind::PythonCache
        } else {
            ArtifactDirKind::Other
        },
        None => ArtifactDirKind::Other,
    }
}

/// Whether a directory of this kind is a build artifact, given whether its
/// `CACHEDIR.TAG` exists and whether the marker beside it exists: a Cargo
/// target needs either, `node_modules` needs `package.json` beside it,
/// Python caches always are, and anything else never is.
pub open spec fn artifact_decision(kind: ArtifactDirKind, tag_exists: bool, sibling_marker_exists: bool) -> bool {
    match kind {
        ArtifactDirKind::CargoTarget => tag_exists || sibling_marker_exists,
        ArtifactDirKind::NodeModules => sibling_marker_exists,
        ArtifactDirKind::PythonCache => true,
        ArtifactDirKind::Other => false,
    }
}

/// Decides whether a directory of this kind is a build artifact from the
/// answers about its marker files.
pub fn artifact_dir_decision(kind: ArtifactDirKind, tag_exists: bool, sibling_marker_exists: bool) -> (r: bool)
    ensures
        r == artifact_decision(kind, tag_exists, sibling_marker_exists),
{
    match kind {
        ArtifactDirKind::CargoTarget => tag_exists || sibling_marker_exists,
        ArtifactDirKind::NodeModules => sibling_marker_exists,
        ArtifactDirKind::PythonCache => true,
        ArtifactDirKind::Other => false,
    }
}

/// The tag file that marks a cache directory (`CACHEDIR.TAG` inside it).
pub open spec fn cache_tag_path(dir: Seq<char>) -> Seq<char> {
    path_join(dir, "CACHEDIR.TAG"@)
}

/// The path of `marker` beside `dir`, in its parent; none without a parent.
pub open spec fn sibling_path(dir: Seq<char>, marker: Seq<char>) -> Option<Seq<char>> {
    match path_parent(dir) {
        Some(parent) => Some(path_join(parent, marker)),
        None => None,
    }
}

/// The marker whose presence beside a directory of this kind makes it an
/// artifact.
pub open spec fn sibling_marker(kind: ArtifactDirKind) -> Seq<char> {
    match kind {
        ArtifactDirKind::CargoTarget => "Cargo.toml"@,
        ArtifactDirKind::NodeModules => "package.json"@,
        _ => Seq::empty(),
    }
}

/// Whether asking `probe` about the path `p` may have given `b`.
pub open spec fn answered<F: Fn(&str) -> bool>(probe: F, p: Seq<char>, b: bool) -> bool {
    exists|s: &str| #[trigger] call_ensures(probe, (s,), b) && s@ == p
}

/// Whether `b` is the answer about a path that may be missing: what `probe`
/// gave for it, or `false` when there is no such path.
pub open spec fn answered_opt<F: Fn(&str) -> bool>(probe: F, p: Option<Seq<char>>, b: bool) -> bool {
    match p {
        Some(q) => answered(probe, q, b),
        None => !b,
    }
}

/// Whether the parent of `dir` holds `marker`, as `probe` answers; a path
/// without a parent has no sibling.
fn has_marker_sibling<F: Fn(&str) -> bool>(dir: &str, marker: &str, probe: &F) -> (r: bool)
    requires
        forall|s: &str| call_requires(*probe, (s,)),
    ensures
        answered_opt(*probe, sibling_path(dir@, marker@), r),
{
    match parent_of(dir) {
        Some(parent) => {
            let candidate = join_path(parent.as_str(), marker);
            let cs = candidate.as_str();
            let b = probe(cs);
            assert(call_ensures(*probe, (cs,), b));
            b
        },
        None => false,
    }
}

/// Whether `dir` holds `child_tag`, or else its parent holds
/// `sibling_marker`, as `probe` answers (the parent is asked only when the
/// tag is missing).
fn has_marker_sibling_or_tag<F: Fn(&str) -> bool>(dir: &str, sibling_marker: &str, child_tag: &str, probe: &F) -> (r: bool)
    requires
        forall|s: &str| call_requires(*probe, (s,)),
    ensures
        exists|t: bool|
            #[trigger] answered(*probe, path_join(dir@, child_tag@), t) && (t ==> r) && (!t
                ==> answered_opt(*probe, sibling_path(dir@, sibling_marker@), r)),
{
    let tag = join_path(dir, child_tag);
    let ts = tag.as_str();
    let t = probe(ts);
    assert(call_ensures(*probe, (ts,), t));
    assert(answered(*probe, path_join(dir@, child_tag@), t));
    if t {
        return true;
    }
    let m = has_marker_sibling(dir, sibling_marker, probe);
    m
}

/// Whether `b` is what asking `probe` about the marker files of a
/// directory of this kind gives: the tag answer `t` and the sibling answer
/// `m`, asked as the decision needs them.
pub open spec fn marker_answers<F: Fn(&str) -> bool>(probe: F, dir: Seq<char>, kind: ArtifactDirKind, t: bool, m: bool) -> bool {
    match kind {
        ArtifactDirKind::CargoTarget => answered(probe, cache_tag_path(dir), t) && (!t ==> answered_opt(
            probe,
            sibling_path(dir, sibling_marker(kind)),
            m,
        )),
        ArtifactDirKind::NodeModules => answered_opt(probe, sibling_path(dir, sibling_marker(kind)), m),
        _ => true,
    }
}

/// Whether a directory is a known build artifact tree, asking `probe`
/// whether its marker files are there: for `target`, `CACHEDIR.TAG` inside
/// it and then `Cargo.toml` beside it; for `node_modules`, `package.json`
/// beside it. Python caches always are and other names never are.
pub fn is_build_artifact_dir_with<F: Fn(&str) -> bool>(path: &str, probe: &F) -> (r: bool)
    requires
        forall|s: &str| call_requires(*probe, (s,)),
    ensures
        exists|t: bool, m: bool|
            #![trigger marker_answers(*probe, path@, artifact_dir_kind(path_file_name(path@)), t, m)]
            marker_answers(*probe, path@, artifact_dir_kind(path_file_name(path@)), t, m) && r
                == artifact_decision(artifact_dir_kind(path_file_name(path@)), t, m),
{
    let name = file_name_of(path);
    let kind = match &name {
        Some(n) => classify_artifact_dir_name(Some(n.as_str())),
        None => classify_artifact_dir_name(None),
    };
    proof {
        reveal_strlit("Cargo.toml");
        reveal_strlit("package.json");
        reveal_strlit("CACHEDIR.TAG");
    }
    match kind {
        ArtifactDirKind::CargoTarget => {
            let r = has_marker_sibling_or_tag(path, "Cargo.toml", "CACHEDIR.TAG", probe);
            let ghost t = choose|t: bool|
                #[trigger] answered(*probe, path_join(path@, "CACHEDIR.TAG"@), t) && (t ==> r) && (!t
                    ==> answered_opt(*probe, sibling_path(path@, "Cargo.toml"@), r));
            let ghost m = if t {
                false
            } else {
                r
            };
            assert(marker_answers(*probe, path@, kind, t, m));
            artifact_dir_decision(kind, r, false)
        },
        ArtifactDirKind::NodeModules => {
            let m = has_marker_sibling(path, "package.json", probe);
            assert(marker_answers(*probe, path@, kind, false, m));
            artifact_dir_decision(kind, false, m)
        },
        ArtifactDirKind::PythonCache => {
            assert(marker_answers(*probe, path@, kind, false, false));
            artifact_dir_decision(kind, false, false)
        },
        ArtifactDirKind::Other => {
            assert(marker_answers(*probe, path@, kind, false, false));
            artifact_dir_decision(kind, false, false)
        },
    }
}

/// Whether something exists at `p` on disk now; the answer depends on the
/// file system, so nothing is promised of it.
pub fn on_disk(p: &str) -> bool {
    path_exists(p)
}

/// Checks whether a directory is a known build artifact tree, asking the
/// disk about its marker files: for `target`, `CACHEDIR.TAG` inside it and
/// then `Cargo.toml` beside it; for `node_modules`, `package.json` beside
/// it. Python caches always are and other names never are.
pub fn is_build_artifact_dir(path: &str) -> (r: bool)
    ensures
        exists|t: bool, m: bool|
            #![trigger marker_answers(on_disk, path@, artifact_dir_kind(path_file_name(path@)), t, m)]
            marker_answers(on_disk, path@, artifact_dir_kind(path_file_name(path@)), t, m) && r
                == artifact_decision(artifact_dir_kind(path_file_name(path@)), t, m),
{
    is_build_artifact_dir_with(path, &on_disk)
}

/// Whether a file extension marks compiled Python (`pyc`, in any ASCII case).
pub fn is_compiled_python_extension(ext: Option<&str>) -> (r: bool)
    ensures
        r == match ext {
            Some(e) => eq_ignore_ascii_case_seq(e@, "pyc"@),
            None => false,
        },
{
    match ext {
        Some(e) => str_eq_ignore_ascii_case(e, "pyc"),
        None => false,
    }
}

/// Checks whether a file is a standalone compiled artifact (`*.pyc`).
pub fn is_build_artifact_file(path: &str) -> (r: bool)
    ensures
        r == match path_extension(path@) {
            Some(e) => eq_ignore_ascii_case_seq(e, "pyc"@),
            None => false,
        },
{
    let ext = extension_of(path);
    match &ext {
        Some(e) => is_compiled_python_extension(Some(e.as_str())),
        None => is_compiled_python_extension(None),
    }
}

} // verus!
