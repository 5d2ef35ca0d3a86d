use c2rust_clean::error::{CleanError, IoErrorKind};
use c2rust_clean::git_helper::{
    auto_commit_if_modified, check_and_commit, commit_changes, commit_message, ensure_git_repo,
    has_modifications, parents_of, scan_result, step_failure, store_dir, store_state, StoreState,
};
use c2rust_clean::path::NormalPath;
use std::io::Write;
use std::path::{Component, Path};
use tempfile::TempDir;

fn normal(path: &Path) -> NormalPath {
    let mut anchor = String::new();
    let mut names = Vec::new();
    for component in path.components() {
        match component {
            Component::Normal(name) => names.push(name.to_str().unwrap().to_string()),
            other => anchor.push_str(other.as_os_str().to_str().unwrap()),
        }
    }
    NormalPath::from_parts(&anchor, &names).unwrap()
}

fn write_file(dir: &Path, name: &str, content: &str) {
    let mut file = tempfile::NamedTempFile::new_in(dir).unwrap();
    file.write_all(content.as_bytes()).unwrap();
    file.persist(dir.join(name)).unwrap();
}

fn commit_count(dir: &Path) -> usize {
    let repo = git2::Repository::open(dir).unwrap();
    let mut walk = repo.revwalk().unwrap();
    match walk.push_head() {
        Ok(()) => walk.count(),
        Err(_) => 0,
    }
}

fn last_message(dir: &Path) -> String {
    let repo = git2::Repository::open(dir).unwrap();
    let commit = repo.head().unwrap().peel_to_commit().unwrap();
    let message = commit.message().unwrap().to_string();
    message
}

#[test]
fn test_ensure_git_repo_creates_repo() {
    let temp_dir = TempDir::new().unwrap();
    let c2rust_dir = store_dir(&normal(temp_dir.path()));

    let result = ensure_git_repo(&c2rust_dir);
    assert!(result.is_ok());

    // Check that .c2rust/.git exists
    let git_dir = temp_dir.path().join(".c2rust").join(".git");
    assert!(git_dir.exists());
}

#[test]
fn test_check_and_commit_with_changes() {
    let temp_dir = TempDir::new().unwrap();
    let c2rust_path = temp_dir.path().join(".c2rust");
    let c2rust_dir = store_dir(&normal(temp_dir.path()));

    // The repository is created with the first save; a file is added.
    ensure_git_repo(&c2rust_dir).unwrap();
    write_file(&c2rust_path, "test.txt", "test content");

    let result = check_and_commit(&c2rust_dir, true);
    assert!(result.is_ok());
    assert_eq!(result, Ok(StoreState::RepoDirty));

    // Verify that the file was committed
    let repo = git2::Repository::open(&c2rust_path).unwrap();
    let head = repo.head().unwrap();
    assert!(head.is_branch());
}

#[test]
fn test_check_and_commit_no_changes() {
    let temp_dir = TempDir::new().unwrap();
    let c2rust_dir = store_dir(&normal(temp_dir.path()));

    // Initialize repo without any files
    let result = ensure_git_repo(&c2rust_dir);
    assert!(result.is_ok());

    // This should not fail even with no changes
    let result = check_and_commit(&c2rust_dir, true);
    assert!(result.is_ok());
    assert_eq!(result, Ok(StoreState::RepoClean));
}

#[test]
fn committing_twice_without_a_change_makes_one_revision() {
    let temp_dir = TempDir::new().unwrap();
    let root = normal(temp_dir.path());
    let c2rust_path = temp_dir.path().join(".c2rust");
    ensure_git_repo(&store_dir(&root)).unwrap();
    write_file(&c2rust_path, "config.toml", "dir = \"sub\"\n");

    assert_eq!(auto_commit_if_modified(&root, true), Ok(StoreState::RepoDirty));
    assert_eq!(commit_count(&c2rust_path), 1);
    assert_eq!(auto_commit_if_modified(&root, true), Ok(StoreState::RepoClean));
    assert_eq!(commit_count(&c2rust_path), 1);
}

#[test]
fn a_second_change_is_committed_on_top_of_the_first() {
    let temp_dir = TempDir::new().unwrap();
    let root = normal(temp_dir.path());
    let c2rust_path = temp_dir.path().join(".c2rust");
    ensure_git_repo(&store_dir(&root)).unwrap();
    write_file(&c2rust_path, "a.txt", "one");
    assert_eq!(auto_commit_if_modified(&root, true), Ok(StoreState::RepoDirty));
    write_file(&c2rust_path, "a.txt", "two");
    write_file(&c2rust_path, "b.txt", "new");
    assert_eq!(auto_commit_if_modified(&root, true), Ok(StoreState::RepoDirty));
    assert_eq!(commit_count(&c2rust_path), 2);

    let repo = git2::Repository::open(&c2rust_path).unwrap();
    let head = repo.head().unwrap().peel_to_commit().unwrap();
    assert_eq!(head.parent_count(), 1);
    assert_eq!(head.author().name(), Some("c2rust-clean"));
    assert_eq!(head.author().email(), Some("c2rust-clean@auto"));
    assert!(head.tree().unwrap().get_name("b.txt").is_some());
    let statuses = repo.statuses(None).unwrap();
    assert!(statuses.is_empty());
}

#[test]
fn the_commit_message_is_marked_as_automatic() {
    let temp_dir = TempDir::new().unwrap();
    let root = normal(temp_dir.path());
    let c2rust_path = temp_dir.path().join(".c2rust");
    ensure_git_repo(&store_dir(&root)).unwrap();
    write_file(&c2rust_path, "a.txt", "one");
    auto_commit_if_modified(&root, true).unwrap();
    let message = last_message(&c2rust_path);
    assert!(message.starts_with("Auto-commit changes at "));
    // The time is written as YYYY-MM-DD HH:MM:SS.
    let stamp: Vec<char> = message["Auto-commit changes at ".len()..].chars().collect();
    assert_eq!(stamp.len(), 19);
    assert_eq!((stamp[4], stamp[7], stamp[10], stamp[13], stamp[16]), ('-', '-', ' ', ':', ':'));
    assert_eq!(commit_message("2024-01-02 03:04:05"), "Auto-commit changes at 2024-01-02 03:04:05");
}

#[test]
fn a_missing_store_is_left_alone() {
    let temp_dir = TempDir::new().unwrap();
    let root = normal(temp_dir.path());
    assert_eq!(auto_commit_if_modified(&root, false), Ok(StoreState::NoStore));
    assert!(!temp_dir.path().join(".c2rust").exists());
}

#[test]
fn a_store_without_a_repository_is_left_alone() {
    let temp_dir = TempDir::new().unwrap();
    let store = TempDir::new_in(temp_dir.path()).unwrap();
    write_file(store.path(), "test.txt", "content");
    let dir = normal(store.path());
    assert_eq!(check_and_commit(&dir, true), Ok(StoreState::StoreNoRepo));
    // No repository was created on the way.
    assert!(!store.path().join(".git").exists());
}

#[test]
fn modifications_are_seen_and_gone_after_a_commit() {
    let temp_dir = TempDir::new().unwrap();
    let dir = normal(temp_dir.path());
    let repo = ensure_git_repo(&dir).unwrap();
    assert_eq!(has_modifications(&repo), Ok(false));
    write_file(temp_dir.path(), "new.txt", "x");
    assert_eq!(has_modifications(&repo), Ok(true));
    assert_eq!(commit_changes(&repo), Ok(()));
    assert_eq!(has_modifications(&repo), Ok(false));
    assert_eq!(commit_count(temp_dir.path()), 1);
    // An existing repository is opened, not created anew.
    let again = ensure_git_repo(&dir).unwrap();
    assert_eq!(has_modifications(&again), Ok(false));
    assert_eq!(commit_count(temp_dir.path()), 1);
}

#[test]
fn a_repository_that_cannot_be_created_is_a_failure() {
    let temp_dir = TempDir::new().unwrap();
    write_file(temp_dir.path(), "plain", "a file, not a directory");
    let dir = normal(&temp_dir.path().join("plain"));
    match ensure_git_repo(&dir) {
        Err(CleanError::IoError(IoErrorKind::Other, message)) => {
            assert!(message.starts_with("Failed to initialize git repository: "));
            assert!(message.len() > "Failed to initialize git repository: ".len());
        }
        other => panic!("unexpected result {:?}", other.map(|_| ())),
    }
}

#[test]
fn step_failures_carry_the_step_and_the_detail() {
    assert_eq!(
        step_failure("Failed to write tree: ", "index is locked"),
        CleanError::IoError(IoErrorKind::Other, "Failed to write tree: index is locked".to_string())
    );
}

#[test]
fn the_state_of_the_store_follows_what_was_found() {
    assert_eq!(store_state(false, false, false), StoreState::NoStore);
    assert_eq!(store_state(false, true, true), StoreState::NoStore);
    assert_eq!(store_state(true, false, false), StoreState::StoreNoRepo);
    assert_eq!(store_state(true, false, true), StoreState::StoreNoRepo);
    assert_eq!(store_state(true, true, false), StoreState::RepoClean);
    assert_eq!(store_state(true, true, true), StoreState::RepoDirty);
    assert!(StoreState::RepoDirty.needs_commit());
    assert!(!StoreState::RepoClean.needs_commit());
    assert!(!StoreState::StoreNoRepo.needs_commit());
    assert!(!StoreState::NoStore.needs_commit());
}

#[test]
fn a_scan_that_found_something_means_modified() {
    assert_eq!(scan_result(Ok(true)), Ok(false));
    assert_eq!(scan_result(Ok(false)), Ok(true));
}

#[test]
fn a_scan_that_failed_is_a_failure() {
    assert_eq!(
        scan_result(Err("could not read the index".to_string())),
        Err(CleanError::IoError(
            IoErrorKind::Other,
            "Failed to get git status: could not read the index".to_string()
        ))
    );
}

#[test]
fn a_new_commit_has_the_head_as_its_only_parent() {
    let temp_dir = TempDir::new().unwrap();
    let repo = ensure_git_repo(&normal(temp_dir.path())).unwrap();
    // No head yet: the first commit has no parent.
    assert!(parents_of(&None).is_empty());
    write_file(temp_dir.path(), "a.txt", "one");
    commit_changes(&repo).unwrap();
    let head = repo.head().unwrap().peel_to_commit().unwrap();
    let id = head.id();
    let head = Some(head);
    let parents = parents_of(&head);
    assert_eq!(parents.len(), 1);
    assert_eq!(parents[0].id(), id);
    // The next commit is made on top of it.
    write_file(temp_dir.path(), "b.txt", "two");
    commit_changes(&repo).unwrap();
    let next = repo.head().unwrap().peel_to_commit().unwrap();
    assert_eq!(next.parent_count(), 1);
    assert_eq!(next.parent_id(0).unwrap(), id);
}
