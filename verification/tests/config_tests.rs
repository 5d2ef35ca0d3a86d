use c2rust_clean::config::{config_file, serialize_failure, Config, StoredFile};
use c2rust_clean::error::{CleanError, IoErrorKind};
use c2rust_clean::path::NormalPath;

fn path(names: &[&str]) -> NormalPath {
    let names: Vec<String> = names.iter().map(|s| s.to_string()).collect();
    NormalPath::from_parts("/", &names).unwrap()
}

#[test]
fn test_save_and_load() {
    let root = path(&["tmp", "work"]);

    // Saving plans the write; the record goes through JSON text as the
    // file would hold it.
    let plan = Config::save(&root, "build", false);
    let mut object = serde_json::Map::new();
    object.insert(
        "build_dir".to_string(),
        serde_json::Value::String(plan.config.build_dir.clone()),
    );
    let json = serde_json::to_string_pretty(&serde_json::Value::Object(object)).unwrap();
    assert_eq!(json, "{\n  \"build_dir\": \"build\"\n}");

    let parsed: serde_json::Value = serde_json::from_str(&json).unwrap();
    let stored = StoredFile::Parsed(parsed["build_dir"].as_str().unwrap().to_string());
    let config = Config::load(&root, stored).unwrap();
    assert_eq!(config.build_dir, "build");
}

#[test]
fn save_creates_the_store_only_when_it_is_missing() {
    let root = path(&["tmp", "work"]);
    let plan = Config::save(&root, "sub/dir", false);
    assert!(plan.create_repository);
    assert_eq!(plan.create_dir.unwrap().to_text(), "/tmp/work/.c2rust");
    assert_eq!(plan.file.to_text(), "/tmp/work/.c2rust/config.json");
    assert_eq!(plan.config, Config { build_dir: "sub/dir".to_string() });
    let plan = Config::save(&root, "sub/dir", true);
    assert!(plan.create_dir.is_none());
    assert!(!plan.create_repository);
    assert_eq!(plan.file.to_text(), config_file(&root).to_text());
}

#[test]
fn load_reports_a_missing_file() {
    let root = path(&["tmp", "work"]);
    assert_eq!(
        Config::load(&root, StoredFile::Missing),
        Err(CleanError::IoError(
            IoErrorKind::NotFound,
            "Configuration file not found: /tmp/work/.c2rust/config.json. Please run the command from a build directory first to save the configuration.".to_string()
        ))
    );
}

#[test]
fn load_reports_unreadable_and_malformed_files() {
    let root = path(&["tmp", "work"]);
    assert_eq!(
        Config::load(&root, StoredFile::Unreadable(IoErrorKind::Other, "permission denied".to_string())),
        Err(CleanError::IoError(IoErrorKind::Other, "permission denied".to_string()))
    );
    assert_eq!(
        Config::load(&root, StoredFile::Malformed("expected value at line 1 column 1".to_string())),
        Err(CleanError::IoError(
            IoErrorKind::InvalidData,
            "Failed to parse config: expected value at line 1 column 1".to_string()
        ))
    );
    assert_eq!(
        serialize_failure("key must be a string"),
        CleanError::IoError(
            IoErrorKind::InvalidData,
            "Failed to serialize config: key must be a string".to_string()
        )
    );
}

#[test]
fn find_c2rust_root_takes_the_nearest_store() {
    let start = path(&["a", "b", "c"]);
    let found = Config::find_c2rust_root(&start, &vec![false, true, false, true]).unwrap();
    assert_eq!(found.to_text(), "/a/b");
    let found = Config::find_c2rust_root(&start, &vec![true]).unwrap();
    assert_eq!(found.to_text(), "/a/b/c");
    let found = Config::find_c2rust_root(&start, &vec![false, false, false, true]).unwrap();
    assert_eq!(found.to_text(), "/");
}

#[test]
fn find_c2rust_root_falls_back_to_the_starting_directory() {
    let start = path(&["a", "b"]);
    let expected = Ok(path(&["a", "b"]));
    assert_eq!(Config::find_c2rust_root(&start, &vec![false, false, false]), expected);
    assert_eq!(Config::find_c2rust_root(&start, &vec![]), expected);
    // A flag above the anchor speaks of no directory.
    assert_eq!(Config::find_c2rust_root(&start, &vec![false, false, false, true]), expected);
}

#[test]
fn build_dir_path_descends_from_the_root() {
    let root = path(&["tmp", "work"]);
    let at = |dir: &str| {
        Config::get_build_dir_path(&root, &Config { build_dir: dir.to_string() })
            .map(|p| p.to_text())
    };
    assert_eq!(at("."), Some("/tmp/work".to_string()));
    assert_eq!(at("build"), Some("/tmp/work/build".to_string()));
    assert_eq!(at("sub/dir"), Some("/tmp/work/sub/dir".to_string()));
    assert_eq!(at(""), None);
    assert_eq!(at(".."), None);
    assert_eq!(at("../x"), None);
    assert_eq!(at("/abs"), None);
    assert_eq!(at("a//b"), None);
    assert_eq!(at("a/./b"), None);
}

#[test]
fn build_dir_path_leads_back_to_the_directory() {
    let root = path(&["tmp", "work"]);
    for names in [vec![], vec!["x"], vec!["x", "y", "z"]] {
        let names: Vec<String> = names.iter().map(|s| s.to_string()).collect();
        let current = root.descend(&names).unwrap();
        let dir = Config::calculate_relative_dir(&root, &current).unwrap();
        assert!(!dir.is_empty());
        assert!(dir != ".." && !dir.starts_with("../"));
        let back = Config::get_build_dir_path(&root, &Config { build_dir: dir }).unwrap();
        assert_eq!(back.to_text(), current.to_text());
    }
}
