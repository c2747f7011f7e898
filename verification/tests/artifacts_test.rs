use std::cell::RefCell;
use tempfile::{tempdir, Builder};
use voidctl::clean::artifacts::{
    artifact_dir_decision, is_build_artifact_dir, is_build_artifact_dir_with, is_build_artifact_file, ArtifactDirKind,
};

#[test]
fn test_cargo_target_detection() {
    let dir = tempdir().expect("tempdir");
    let _cargo_toml = Builder::new()
        .prefix("Cargo.toml")
        .rand_bytes(0)
        .tempfile_in(dir.path())
        .expect("create Cargo.toml");

    let target_dir = Builder::new()
        .prefix("target")
        .rand_bytes(0)
        .tempdir_in(dir.path())
        .expect("create target");

    assert!(is_build_artifact_dir(target_dir.path().to_str().unwrap()));
}

#[test]
fn test_node_modules_detection() {
    let dir = tempdir().expect("tempdir");
    let _pkg_json = Builder::new()
        .prefix("package.json")
        .rand_bytes(0)
        .tempfile_in(dir.path())
        .expect("create package.json");

    let nm_dir = Builder::new()
        .prefix("node_modules")
        .rand_bytes(0)
        .tempdir_in(dir.path())
        .expect("create node_modules");

    assert!(is_build_artifact_dir(nm_dir.path().to_str().unwrap()));
}

#[test]
fn target_without_marker_is_not_an_artifact() {
    let dir = tempdir().expect("tempdir");
    let target_dir = Builder::new()
        .prefix("target")
        .rand_bytes(0)
        .tempdir_in(dir.path())
        .expect("create target");
    let path = target_dir.path().to_str().unwrap();
    assert!(!is_build_artifact_dir(path));
    let _tag = Builder::new()
        .prefix("CACHEDIR.TAG")
        .rand_bytes(0)
        .tempfile_in(target_dir.path())
        .expect("create tag");
    assert!(is_build_artifact_dir(path));
}

#[test]
fn python_caches_always_and_others_never() {
    assert!(is_build_artifact_dir("/x/__pycache__"));
    assert!(is_build_artifact_dir("/x/.pytest_cache"));
    assert!(is_build_artifact_dir("/x/.mypy_cache"));
    assert!(is_build_artifact_dir("/x/.ruff_cache"));
    assert!(!is_build_artifact_dir("/x/src"));
    assert!(!is_build_artifact_dir("/"));
}

#[test]
fn compiled_python_files() {
    assert!(is_build_artifact_file("/x/app.cpython-314.pyc"));
    assert!(is_build_artifact_file("/x/APP.PYC"));
    assert!(!is_build_artifact_file("/x/app.py"));
    assert!(!is_build_artifact_file("/x/pyc"));
    assert!(!is_build_artifact_file("/x/.pyc"));
    assert!(is_build_artifact_file("/x/..pyc"));
    assert!(!is_build_artifact_file("/x/a.pyc.bak"));
}

/// Runs the decision with a probe that answers from `present` and records
/// every path it is asked about.
fn ask(path: &str, present: &[&str]) -> (bool, Vec<String>) {
    let asked = RefCell::new(Vec::new());
    let probe = |p: &str| {
        asked.borrow_mut().push(p.to_string());
        present.contains(&p)
    };
    let r = is_build_artifact_dir_with(path, &probe);
    (r, asked.into_inner())
}

#[test]
fn cargo_target_asks_tag_then_manifest() {
    assert_eq!(ask("/p/target", &[]), (false, vec!["/p/target/CACHEDIR.TAG".to_string(), "/p/Cargo.toml".to_string()]));
    assert_eq!(ask("/p/target", &["/p/Cargo.toml"]).0, true);
    assert_eq!(ask("/p/target", &["/p/target/CACHEDIR.TAG"]), (true, vec!["/p/target/CACHEDIR.TAG".to_string()]));
    assert_eq!(ask("/p/target", &["/p/package.json"]).0, false);
}

#[test]
fn node_modules_asks_package_json_beside_it() {
    assert_eq!(ask("/p/node_modules", &[]), (false, vec!["/p/package.json".to_string()]));
    assert_eq!(ask("/p/node_modules", &["/p/package.json"]).0, true);
    assert_eq!(ask("/p/node_modules", &["/p/Cargo.toml", "/p/node_modules/CACHEDIR.TAG"]).0, false);
}

#[test]
fn caches_and_other_names_ask_nothing() {
    assert_eq!(ask("/p/__pycache__", &[]), (true, vec![]));
    assert_eq!(ask("/p/.ruff_cache", &[]), (true, vec![]));
    assert_eq!(ask("/p/Target", &["/p/Cargo.toml"]), (false, vec![]));
    assert_eq!(ask("/p/src", &[]), (false, vec![]));
}

#[test]
fn artifact_decision_table() {
    assert!(artifact_dir_decision(ArtifactDirKind::CargoTarget, true, false));
    assert!(artifact_dir_decision(ArtifactDirKind::CargoTarget, false, true));
    assert!(!artifact_dir_decision(ArtifactDirKind::CargoTarget, false, false));
    assert!(artifact_dir_decision(ArtifactDirKind::NodeModules, false, true));
    assert!(!artifact_dir_decision(ArtifactDirKind::NodeModules, true, false));
    assert!(artifact_dir_decision(ArtifactDirKind::PythonCache, false, false));
    assert!(!artifact_dir_decision(ArtifactDirKind::Other, true, true));
}
