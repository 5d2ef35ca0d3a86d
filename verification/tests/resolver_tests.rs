use c2rust_clean::config::Config;
use c2rust_clean::error::{CleanError, IoErrorKind};
use c2rust_clean::git_helper::{get_c2rust_dir, get_project_root, store_dir};
use c2rust_clean::path::{is_normal, split_names, NormalPath};
use c2rust_clean::root::{
    find_project_root, marker_names, nearest_flagged, resolve_root, MarkerProbe, RootOverride,
};

const NONE: MarkerProbe = MarkerProbe { git: false, cargo_toml: false, c2rust: false };
const GIT: MarkerProbe = MarkerProbe { git: true, cargo_toml: false, c2rust: false };
const CARGO: MarkerProbe = MarkerProbe { git: false, cargo_toml: true, c2rust: false };
const C2RUST: MarkerProbe = MarkerProbe { git: false, cargo_toml: false, c2rust: true };

fn path(names: &[&str]) -> NormalPath {
    let names: Vec<String> = names.iter().map(|s| s.to_string()).collect();
    NormalPath::from_parts("/", &names).unwrap()
}

fn relative(root: &NormalPath, current: &NormalPath) -> String {
    Config::calculate_relative_dir(root, current).unwrap()
}

#[test]
fn test_calculate_relative_dir() {
    let root = path(&["tmp", "work"]);
    let sub_dir = root.child("sub").unwrap().child("dir").unwrap();

    let relative = Config::calculate_relative_dir(&root, &sub_dir).unwrap();
    assert_eq!(relative, "sub/dir");
}

#[test]
fn test_get_project_root_not_set() {
    let result = get_project_root(None);
    assert!(result.is_err());
}

#[test]
fn test_get_project_root_valid() {
    let dir = path(&["tmp", "project"]);
    let result = get_project_root(Some(RootOverride { path: path(&["tmp", "project"]), is_directory: true }));
    assert!(result.is_ok());
    assert_eq!(result.unwrap().to_text(), dir.to_text());
}

#[test]
fn test_project_root_detection() {
    // A `.c2rust` directory marks the root; the command runs one level below.
    let root = path(&["tmp", "work"]);
    let sub_dir = root.child("subdir").unwrap();
    let found = find_project_root(&sub_dir, &vec![NONE, C2RUST, NONE, NONE]).unwrap();
    assert_eq!(found.to_text(), "/tmp/work");
    assert_eq!(relative(&found, &sub_dir), "subdir");
}

#[test]
fn test_auto_detect_git_root() {
    let root = path(&["tmp", "work"]);
    let sub_dir = root.child("subdir").unwrap();
    let found = find_project_root(&sub_dir, &vec![NONE, GIT, NONE, NONE]).unwrap();
    assert_eq!(found.to_text(), root.to_text());
    assert_eq!(relative(&found, &sub_dir), "subdir");
}

#[test]
fn test_auto_detect_cargo_toml_root() {
    let root = path(&["tmp", "work"]);
    let sub_dir = root.child("src").unwrap();
    let found = find_project_root(&sub_dir, &vec![NONE, CARGO, NONE, NONE]).unwrap();
    assert_eq!(found.to_text(), root.to_text());
    assert_eq!(relative(&found, &sub_dir), "src");
}

#[test]
fn test_auto_detect_c2rust_marker() {
    let root = path(&["tmp", "work"]);
    let sub_dir2 = root.child("level1").unwrap().child("level2").unwrap();
    let found = find_project_root(&sub_dir2, &vec![NONE, NONE, C2RUST, NONE, NONE]).unwrap();
    assert_eq!(found.to_text(), root.to_text());
    assert_eq!(relative(&found, &sub_dir2), "level1/level2");
}

#[test]
fn test_marker_priority_closest_marker_wins() {
    // `.git` at the outer level, `Cargo.toml` in the subproject: run from
    // the subproject, the nearer marker decides.
    let sub_dir = path(&["tmp", "work", "subproject"]);
    let found = find_project_root(&sub_dir, &vec![CARGO, GIT, NONE, NONE]).unwrap();
    assert_eq!(found.to_text(), sub_dir.to_text());
    assert_eq!(relative(&found, &sub_dir), ".");
}

#[test]
fn test_project_root_fallback() {
    // No marker anywhere: the starting directory is the root.
    let start = path(&["tmp", "work"]);
    let found = find_project_root(&start, &vec![NONE, NONE, NONE]).unwrap();
    assert_eq!(found.to_text(), "/tmp/work");
    assert_eq!(relative(&found, &start), ".");
}

#[test]
fn relative_dir_of_the_root_itself_is_a_dot() {
    let root = path(&["a", "b"]);
    assert_eq!(relative(&root, &root), ".");
    let top = NormalPath::new("/");
    assert_eq!(relative(&top, &top), ".");
}

#[test]
fn relative_dir_outside_the_root_falls_back_to_a_dot() {
    let root = path(&["a", "b"]);
    let elsewhere = path(&["a", "c", "d"]);
    assert!(!elsewhere.starts_with(&root));
    assert_eq!(relative(&root, &elsewhere), ".");
    // The parent of the root is outside it too.
    assert_eq!(relative(&root, &path(&["a"])), ".");
    // Another anchor is another tree.
    let other = NormalPath::from_parts("C:\\", &vec!["a".to_string(), "b".to_string(), "x".to_string()]).unwrap();
    assert_eq!(relative(&root, &other), ".");
}

#[test]
fn relative_dir_below_the_anchor() {
    let top = NormalPath::new("/");
    assert_eq!(relative(&top, &path(&["x", "y", "z"])), "x/y/z");
}

#[test]
fn probes_beyond_the_anchor_and_missing_probes_count_for_nothing() {
    let start = path(&["a"]);
    // Depth 1: levels 0 and 1 exist; a flag at level 2 speaks of nothing.
    let found = find_project_root(&start, &vec![NONE, NONE, GIT]).unwrap();
    assert_eq!(found.to_text(), "/a");
    // No probes at all.
    let found = find_project_root(&start, &vec![]).unwrap();
    assert_eq!(found.to_text(), "/a");
    // A marker at the anchor itself.
    let found = find_project_root(&start, &vec![NONE, GIT]).unwrap();
    assert_eq!(found.to_text(), "/");
}

#[test]
fn nearest_flagged_finds_the_first_flag_in_range() {
    assert_eq!(nearest_flagged(&vec![false, true, true], 5), Some(1));
    assert_eq!(nearest_flagged(&vec![false, false, true], 1), None);
    assert_eq!(nearest_flagged(&vec![true], 0), Some(0));
    assert_eq!(nearest_flagged(&vec![], 3), None);
}

#[test]
fn marker_names_are_the_three_markers() {
    assert_eq!(marker_names(), vec![".git", "Cargo.toml", ".c2rust"]);
    assert!(GIT.has_any() && CARGO.has_any() && C2RUST.has_any() && !NONE.has_any());
}

#[test]
fn an_override_decides_alone() {
    let start = path(&["tmp", "work", "sub"]);
    let chosen = RootOverride { path: path(&["srv", "proj"]), is_directory: true };
    let found = resolve_root(Some(chosen), &start, &vec![GIT]).unwrap();
    assert_eq!(found.to_text(), "/srv/proj");
    let found = resolve_root(None, &start, &vec![NONE, GIT]).unwrap();
    assert_eq!(found.to_text(), "/tmp/work");
}

#[test]
fn an_override_that_is_no_directory_is_refused() {
    let start = path(&["tmp", "work"]);
    let bad = RootOverride { path: path(&["no", "such"]), is_directory: false };
    let error = resolve_root(Some(bad), &start, &vec![GIT]).unwrap_err();
    assert_eq!(error, CleanError::InvalidEnvironmentRoot("/no/such".to_string()));
    assert_eq!(
        error.message(),
        "C2RUST_PROJECT_ROOT path does not exist or is not a directory: /no/such"
    );
    let bad = RootOverride { path: path(&["no", "such"]), is_directory: false };
    assert_eq!(
        get_project_root(Some(bad)),
        Err(CleanError::InvalidEnvironmentRoot("/no/such".to_string()))
    );
}

#[test]
fn a_missing_override_is_reported_as_not_found() {
    let error = get_project_root(None).unwrap_err();
    assert_eq!(
        error,
        CleanError::IoError(
            IoErrorKind::NotFound,
            "C2RUST_PROJECT_ROOT environment variable not set".to_string()
        )
    );
    assert!(get_c2rust_dir(None).is_err());
}

#[test]
fn the_store_is_the_c2rust_directory_of_the_root() {
    let root = path(&["srv", "proj"]);
    assert_eq!(store_dir(&root).to_text(), "/srv/proj/.c2rust");
    let chosen = RootOverride { path: path(&["srv", "proj"]), is_directory: true };
    assert_eq!(get_c2rust_dir(Some(chosen)).unwrap().to_text(), "/srv/proj/.c2rust");
}

#[test]
fn normal_names_exclude_dots_slashes_and_the_empty_name() {
    assert!(is_normal("src"));
    assert!(is_normal(".git"));
    assert!(is_normal("..."));
    assert!(is_normal("a b"));
    assert!(!is_normal(""));
    assert!(!is_normal("."));
    assert!(!is_normal(".."));
    assert!(!is_normal("a/b"));
    assert!(!is_normal("/"));
}

#[test]
fn paths_are_built_from_normal_names_only() {
    let top = NormalPath::new("/");
    assert_eq!(top.depth(), 0);
    assert!(top.parent().is_none());
    assert!(top.child("..").is_none());
    assert!(top.child("a/b").is_none());
    assert!(NormalPath::from_parts("/", &vec!["a".to_string(), "".to_string()]).is_none());
    let p = top.child("a").unwrap().child("b").unwrap();
    assert_eq!(p.depth(), 2);
    assert_eq!(p.anchor(), "/");
    assert_eq!(p.segments(), vec!["a", "b"]);
    assert_eq!(p.to_text(), "/a/b");
    assert_eq!(p.parent().unwrap().to_text(), "/a");
    assert_eq!(p.duplicate().to_text(), "/a/b");
    assert_eq!(NormalPath::new("").child("rel").unwrap().to_text(), "rel");
}

#[test]
fn ancestors_run_from_the_path_up_to_the_anchor() {
    let p = path(&["a", "b", "c"]);
    let all: Vec<String> = p.ancestors().iter().map(|d| d.to_text()).collect();
    assert_eq!(all, vec!["/a/b/c", "/a/b", "/a", "/"]);
    assert_eq!(p.ancestor(2).to_text(), "/a");
    assert_eq!(p.ancestor(7).to_text(), "/");
}

#[test]
fn names_below_and_descend_are_inverse() {
    let root = path(&["a"]);
    let deep = path(&["a", "b", "c"]);
    let names = deep.names_below(&root);
    assert_eq!(names, vec!["b", "c"]);
    assert_eq!(root.descend(&names).unwrap().to_text(), "/a/b/c");
    assert!(root.names_below(&deep).is_empty());
    assert!(root.descend(&vec!["..".to_string()]).is_none());
}

#[test]
fn split_names_cuts_at_every_slash() {
    assert_eq!(split_names("a/b/c"), vec!["a", "b", "c"]);
    assert_eq!(split_names("a//b/"), vec!["a", "", "b", ""]);
    assert_eq!(split_names(""), vec![""]);
}

#[test]
fn resolve_follows_dots_and_names() {
    let at = |components: &[&str]| {
        let components: Vec<String> = components.iter().map(|s| s.to_string()).collect();
        NormalPath::resolve("/", &components).map(|p| p.to_text())
    };
    assert_eq!(at(&[]), Some("/".to_string()));
    assert_eq!(at(&["a", "b"]), Some("/a/b".to_string()));
    assert_eq!(at(&["a", ".", "b"]), Some("/a/b".to_string()));
    assert_eq!(at(&["a", "..", "b"]), Some("/b".to_string()));
    assert_eq!(at(&["a", "b", "..", ".."]), Some("/".to_string()));
    // Above the anchor there is nothing to go up to.
    assert_eq!(at(&["..", "..", "x"]), Some("/x".to_string()));
    assert_eq!(at(&["a", "", "b"]), None);
    assert_eq!(at(&["a/b"]), None);
    assert_eq!(at(&["a", "..", "b/c", ".."]), None);
}
