//! The change tracker: snapshots the configuration directory into a private
//! git repository whenever its contents differ from the last snapshot.
//!
//! What a repository holds is on disk and outside the reach of any proof, so
//! the contracts here say what holds of every outcome: which failures can be
//! reported and how they are worded, and which states make no repository
//! call at all.

use crate::error::{prefixed, CleanError, CleanErrorView, IoErrorKind};
use crate::path::{path_result, NormalPath};
use crate::root::{project_root_of, RootOverride};
use vstd::prelude::*;
use vstd::string::*;

verus! {

/// `git2::Repository`: an open repository. Opaque; only handed on.
#[verifier::external_type_specification]
#[verifier::external_body]
pub struct ExRepository(git2::Repository);

/// `git2::Error`: why a repository operation failed. Opaque; only its
/// text is taken from it.
#[verifier::external_type_specification]
#[verifier::external_body]
pub struct ExGitError(git2::Error);

/// `git2::Index`: the staging area of a repository. Opaque; only handed on.
#[verifier::external_type_specification]
#[verifier::external_body]
pub struct ExIndex(git2::Index);

/// `git2::Oid`: the id of an object in a repository. Opaque; only handed on.
#[verifier::external_type_specification]
#[verifier::external_body]
pub struct ExOid(git2::Oid);

/// `git2::Tree`: a tree object. Opaque; only handed on.
#[verifier::external_type_specification]
#[verifier::external_body]
pub struct ExTree<'a>(git2::Tree<'a>);

/// `git2::Commit`: a commit object. Opaque; only handed on.
#[verifier::external_type_specification]
#[verifier::external_body]
pub struct ExCommit<'a>(git2::Commit<'a>);

/// `git2::Reference`: a named reference. Opaque; only handed on.
#[verifier::external_type_specification]
#[verifier::external_body]
pub struct ExReference<'a>(git2::Reference<'a>);

/// `git2::Signature`: who made a commit, and when. Opaque; only handed on.
#[verifier::external_type_specification]
#[verifier::external_body]
pub struct ExSignature<'a>(git2::Signature<'a>);

/// `git2::StatusOptions`: the settings of a status scan. Opaque; only
/// handed on.
#[verifier::external_type_specification]
#[verifier::external_body]
pub struct ExStatusOptions(git2::StatusOptions);

/// `git2::Statuses`: the entries that a status scan found. Opaque; only
/// asked whether it is empty.
#[verifier::external_type_specification]
#[verifier::external_body]
pub struct ExStatuses<'a>(git2::Statuses<'a>);

/// `git2::Repository::open`: opens the repository at `path`, or reports why
/// there is none to open. Nothing is claimed of the outcome.
#[verifier::external_body]
fn open_repository(path: &str) -> (r: Result<git2::Repository, git2::Error>) {
    git2::Repository::open(path)
}

/// `git2::Repository::init`: creates a repository at `path`. Nothing is
/// claimed of the outcome.
#[verifier::external_body]
fn init_repository(path: &str) -> (r: Result<git2::Repository, git2::Error>) {
    git2::Repository::init(path)
}

/// `git2::StatusOptions::new`: a blank set of options for a status scan.
#[verifier::external_body]
fn new_status_options() -> (r: git2::StatusOptions) {
    git2::StatusOptions::new()
}

/// `git2::StatusOptions::include_untracked`: sets whether a scan reports
/// files that the repository does not track. The tracker's scans always
/// report them, and no other setting is admitted.
#[verifier::external_body]
fn report_untracked(options: &mut git2::StatusOptions, on: bool)
    requires
        on,
{
    options.include_untracked(on);
}

/// `git2::StatusOptions::include_ignored`: sets whether a scan reports
/// files that the ignore rules exclude. The tracker's scans never report
/// them, and no other setting is admitted.
#[verifier::external_body]
fn report_ignored(options: &mut git2::StatusOptions, on: bool)
    requires
        !on,
{
    options.include_ignored(on);
}

/// `git2::Repository::statuses`: scans the working tree and the index under
/// `options`. Nothing is claimed of the outcome.
#[verifier::external_body]
fn repository_statuses<'a>(repo: &'a git2::Repository, options: &mut git2::StatusOptions) -> (r:
    Result<git2::Statuses<'a>, git2::Error>) {
    repo.statuses(Some(options))
}

/// `git2::Statuses::is_empty`: whether a scan found no entry.
#[verifier::external_body]
fn statuses_is_empty(statuses: &git2::Statuses<'_>) -> (r: bool) {
    statuses.is_empty()
}

/// `git2::Repository::index`: the repository's index file.
#[verifier::external_body]
fn repository_index(repo: &git2::Repository) -> (r: Result<git2::Index, git2::Error>) {
    repo.index()
}

/// `git2::Index::add_all` with the default options and no callback: stages
/// everything in the working tree that matches `pathspec`. Only the
/// pattern that matches the whole working tree is admitted.
#[verifier::external_body]
fn index_add_all(index: &mut git2::Index, pathspec: &str) -> (r: Result<(), git2::Error>)
    requires
        pathspec@ == staged_pattern(),
{
    index.add_all([pathspec].iter(), git2::IndexAddOption::DEFAULT, None)
}

/// `git2::Index::write`: writes the index back to disk.
#[verifier::external_body]
fn index_write(index: &mut git2::Index) -> (r: Result<(), git2::Error>) {
    index.write()
}

/// `git2::Index::write_tree`: writes the index as a tree and gives the id
/// of its root.
#[verifier::external_body]
fn index_write_tree(index: &mut git2::Index) -> (r: Result<git2::Oid, git2::Error>) {
    index.write_tree()
}

/// `git2::Repository::find_tree`: looks a tree up by id.
#[verifier::external_body]
fn find_tree<'a>(repo: &'a git2::Repository, id: git2::Oid) -> (r: Result<
    git2::Tree<'a>,
    git2::Error,
>) {
    repo.find_tree(id)
}

/// `git2::Signature::now`: an identity stamped with the current time. Only
/// the tracker's own identity is admitted.
#[verifier::external_body]
fn signature_now(name: &str, email: &str) -> (r: Result<git2::Signature<'static>, git2::Error>)
    requires
        name@ == identity_name(),
        email@ == identity_email(),
{
    git2::Signature::now(name, email)
}

/// `git2::Repository::head`: the reference that HEAD resolves to.
#[verifier::external_body]
fn repository_head<'a>(repo: &'a git2::Repository) -> (r: Result<
    git2::Reference<'a>,
    git2::Error,
>) {
    repo.head()
}

/// `git2::Reference::target`: the id that a direct reference points at.
#[verifier::external_body]
fn reference_target(reference: &git2::Reference<'_>) -> (r: Option<git2::Oid>) {
    reference.target()
}

/// `git2::Repository::find_commit`: looks a commit up by id.
#[verifier::external_body]
fn find_commit<'a>(repo: &'a git2::Repository, id: git2::Oid) -> (r: Result<
    git2::Commit<'a>,
    git2::Error,
>) {
    repo.find_commit(id)
}

/// `git2::Repository::commit`: creates a commit of `tree` on top of
/// `parents`, signed by `identity` as author and committer, and moves
/// `update_ref` to it. Nothing is claimed of the outcome. Only what the
/// tracker commits is admitted: the head is moved, the message is marked
/// as automatic, and there is at most one parent.
#[verifier::external_body]
fn create_commit(
    repo: &git2::Repository,
    update_ref: &str,
    identity: &git2::Signature<'_>,
    message: &str,
    tree: &git2::Tree<'_>,
    parents: &Vec<&git2::Commit<'_>>,
) -> (r: Result<git2::Oid, git2::Error>)
    requires
        update_ref@ == moved_reference(),
        automatic_mark().is_prefix_of(message@),
        parents@.len() <= 1,
{
    repo.commit(Some(update_ref), identity, identity, message, tree, parents.as_slice())
}

/// The `Display` text of a `git2::Error`.
#[verifier::external_body]
fn git_error_text(error: &git2::Error) -> (r: String) {
    error.to_string()
}

/// The pattern that is staged before a commit: the whole working tree.
pub open spec fn staged_pattern() -> Seq<char> {
    "."@
}

/// The name under which the tracker commits. It is fixed, so that a commit
/// never depends on an identity being configured.
pub open spec fn identity_name() -> Seq<char> {
    "c2rust-clean"@
}

/// The address under which the tracker commits.
pub open spec fn identity_email() -> Seq<char> {
    "c2rust-clean@auto"@
}

/// The reference that a commit moves: the head of the current branch.
pub open spec fn moved_reference() -> Seq<char> {
    "HEAD"@
}

/// The words by which a commit message is known to be automatic.
pub open spec fn automatic_mark() -> Seq<char> {
    "Auto-commit"@
}

/// The layout of the time in an automatic commit message.
pub open spec fn timestamp_layout() -> Seq<char> {
    "%Y-%m-%d %H:%M:%S"@
}

/// `chrono::Local::now`, written out under `layout`. The result depends on
/// the clock and the time zone, so nothing is claimed of it. Only the one
/// layout that is known to be well formed is admitted, since writing a
/// time out under a malformed layout panics. The call itself panics on a
/// machine whose clock reads a time before 1970; no argument can rule
/// that out.
#[verifier::external_body]
fn local_time_text(layout: &str) -> (r: String)
    requires
        layout@ == timestamp_layout(),
{
    chrono::Local::now().format(layout).to_string()
}

/// What the change tracker found at the configuration directory.
#[derive(Debug, Clone, Copy, PartialEq, Eq)]
pub enum StoreState {
    /// The configuration directory does not exist.
    NoStore,
    /// The directory exists but holds no repository that can be opened.
    StoreNoRepo,
    /// The repository has nothing new, modified, deleted or renamed.
    RepoClean,
    /// The repository had changes, and they were committed.
    RepoDirty,
}

/// The state of the store, from what was found of it: whether the
/// directory exists, whether a repository opens in it, and whether a status
/// scan of that repository reports anything.
pub open spec fn state_of(store_exists: bool, repo_opens: bool, modified: bool) -> StoreState {
    if !store_exists {
        StoreState::NoStore
    } else if !repo_opens {
        StoreState::StoreNoRepo
    } else if !modified {
        StoreState::RepoClean
    } else {
        StoreState::RepoDirty
    }
}

/// The state of the store, from what was found of it.
pub fn store_state(store_exists: bool, repo_opens: bool, modified: bool) -> (r: StoreState)
    ensures
        r == state_of(store_exists, repo_opens, modified),
{
    if !store_exists {
        StoreState::NoStore
    } else if !repo_opens {
        StoreState::StoreNoRepo
    } else if !modified {
        StoreState::RepoClean
    } else {
        StoreState::RepoDirty
    }
}

impl StoreState {
    /// Whether this state calls for a commit: only a repository with
    /// changes does.
    pub fn needs_commit(&self) -> (r: bool)
        ensures
            r == (*self == StoreState::RepoDirty),
    {
        match self {
            StoreState::RepoDirty => true,
            _ => false,
        }
    }
}

/// The name of the configuration directory below the project root.
pub open spec fn store_name() -> Seq<char> {
    ".c2rust"@
}

/// Whether `e` reports a failed repository operation whose message opens
/// with `step`.
pub open spec fn is_failure_of(e: CleanErrorView, step: Seq<char>) -> bool {
    e matches CleanErrorView::IoError(kind, message) && kind == IoErrorKind::Other
        && step.is_prefix_of(message)
}

/// The failures that creating a snapshot can report, one for each
/// repository operation that it performs.
pub open spec fn is_commit_failure(e: CleanErrorView) -> bool {
    ||| is_failure_of(e, "Failed to get repository index: "@)
    ||| is_failure_of(e, "Failed to add files to index: "@)
    ||| is_failure_of(e, "Failed to write index: "@)
    ||| is_failure_of(e, "Failed to write tree: "@)
    ||| is_failure_of(e, "Failed to find tree: "@)
    ||| is_failure_of(e, "Failed to create signature: "@)
    ||| is_failure_of(e, "Failed to commit: "@)
}

/// The failure that a status scan can report.
pub open spec fn is_status_failure(e: CleanErrorView) -> bool {
    is_failure_of(e, "Failed to get git status: "@)
}

/// The text of an automatic commit message written at `timestamp`.
pub open spec fn commit_message_text(timestamp: Seq<char>) -> Seq<char> {
    "Auto-commit changes at "@ + timestamp
}

/// The error for a repository operation that failed: `step` followed by the
/// detail that the repository gave.
pub fn step_failure(step: &str, detail: &str) -> (r: CleanError)
    ensures
        r@ == CleanErrorView::IoError(IoErrorKind::Other, step@ + detail@),
        is_failure_of(r@, step@),
{
    let message = prefixed(step, detail);
    assert(step@ =~= (step@ + detail@).subrange(0, step@.len() as int));
    CleanError::IoError(IoErrorKind::Other, message)
}

fn git_failure(step: &str, error: &git2::Error) -> (r: CleanError)
    ensures
        is_failure_of(r@, step@),
{
    let detail = git_error_text(error);
    step_failure(step, detail.as_str())
}

/// The message of an automatic commit made at `timestamp`.
pub fn commit_message(timestamp: &str) -> (r: String)
    ensures
        r@ == commit_message_text(timestamp@),
        automatic_mark().is_prefix_of(r@),
{
    proof {
        reveal_strlit("Auto-commit changes at ");
        reveal_strlit("Auto-commit");
        assert("Auto-commit"@ =~= commit_message_text(timestamp@).subrange(0, 11));
    }
    prefixed("Auto-commit changes at ", timestamp)
}

/// The project root that the override names.
///
/// The override is validated, not trusted: it must have been found to be a
/// directory.
pub fn get_project_root(root: Option<RootOverride>) -> (r: Result<NormalPath, CleanError>)
    ensures
        path_result(r) == project_root_of(root),
{
    match root {
        None => Err(
            CleanError::IoError(
                IoErrorKind::NotFound,
                String::from_str("C2RUST_PROJECT_ROOT environment variable not set"),
            ),
        ),
        Some(o) => {
            if o.is_directory {
                Ok(o.path)
            } else {
                Err(CleanError::InvalidEnvironmentRoot(o.path.to_text()))
            }
        },
    }
}

/// The configuration directory below `root`.
pub fn store_dir(root: &NormalPath) -> (r: NormalPath)
    ensures
        r@ == root@.child(store_name()),
        r@.valid(),
{
    proof {
        reveal_strlit(".c2rust");
        assert(".c2rust"@[1] == 'c');
        assert forall|i: int| 0 <= i < ".c2rust"@.len() implies ".c2rust"@[i] != '/' by {}
    }
    match root.child(".c2rust") {
        Some(dir) => dir,
        None => root.duplicate(),
    }
}

/// The configuration directory of the project that the override names.
pub fn get_c2rust_dir(root: Option<RootOverride>) -> (r: Result<NormalPath, CleanError>)
    ensures
        path_result(r) == match project_root_of(root) {
            Ok(p) => Ok(p.child(store_name())),
            Err(e) => Err(e),
        },
{
    match get_project_root(root) {
        Ok(project_root) => Ok(store_dir(&project_root)),
        Err(e) => Err(e),
    }
}

/// Opens the repository in `c2rust_dir`, creating one if none can be opened.
///
/// The directory itself must already exist. The only failure is that of
/// creating the repository.
pub fn ensure_git_repo(c2rust_dir: &NormalPath) -> (r: Result<git2::Repository, CleanError>)
    ensures
        r matches Err(e) ==> is_failure_of(e@, "Failed to initialize git repository: "@),
{
    let location = c2rust_dir.to_text();
    match open_repository(location.as_str()) {
        Ok(repo) => Ok(repo),
        Err(_) => match init_repository(location.as_str()) {
            Ok(repo) => Ok(repo),
            Err(e) => Err(git_failure("Failed to initialize git repository: ", &e)),
        },
    }
}

/// Whether the repository has anything new, modified, deleted or renamed,
/// in the working tree or staged. Untracked files count; ignored files do
/// not.
pub fn has_modifications(repo: &git2::Repository) -> (r: Result<bool, CleanError>)
    ensures
        r matches Err(e) ==> is_status_failure(e@),
{
    let mut options = new_status_options();
    report_untracked(&mut options, true);
    report_ignored(&mut options, false);
    scan_result(match repository_statuses(repo, &mut options) {
        Ok(statuses) => Ok(statuses_is_empty(&statuses)),
        Err(e) => Err(git_error_text(&e)),
    })
}

/// Stages everything in the repository's working tree and commits it on
/// top of the current head, or without a parent when there is no head yet.
///
/// The commit is signed by a fixed synthetic identity, so that it does not
/// depend on any identity being configured. Each repository operation that
/// fails ends the attempt with its own message.
pub fn commit_changes(repo: &git2::Repository) -> (r: Result<(), CleanError>)
    ensures
        r matches Err(e) ==> is_commit_failure(e@),
{
    let mut index = match repository_index(repo) {
        Ok(index) => index,
        Err(e) => {
            return Err(git_failure("Failed to get repository index: ", &e));
        },
    };
    match index_add_all(&mut index, ".") {
        Ok(_) => {},
        Err(e) => {
            return Err(git_failure("Failed to add files to index: ", &e));
        },
    }
    match index_write(&mut index) {
        Ok(_) => {},
        Err(e) => {
            return Err(git_failure("Failed to write index: ", &e));
        },
    }
    let tree_id = match index_write_tree(&mut index) {
        Ok(id) => id,
        Err(e) => {
            return Err(git_failure("Failed to write tree: ", &e));
        },
    };
    let tree = match find_tree(repo, tree_id) {
        Ok(tree) => tree,
        Err(e) => {
            return Err(git_failure("Failed to find tree: ", &e));
        },
    };
    let identity = match signature_now("c2rust-clean", "c2rust-clean@auto") {
        Ok(identity) => identity,
        Err(e) => {
            return Err(git_failure("Failed to create signature: ", &e));
        },
    };
    let timestamp = local_time_text("%Y-%m-%d %H:%M:%S");
    let message = commit_message(timestamp.as_str());
    let parent: Option<git2::Commit<'_>> = match repository_head(repo) {
        Ok(head) => match reference_target(&head) {
            Some(id) => match find_commit(repo, id) {
                Ok(commit) => Some(commit),
                Err(_) => None,
            },
            None => None,
        },
        Err(_) => None,
    };
    let parents = parents_of(&parent);
    match create_commit(repo, "HEAD", &identity, message.as_str(), &tree, &parents) {
        Ok(_) => Ok(()),
        Err(e) => Err(git_failure("Failed to commit: ", &e)),
    }
}

/// What a status scan comes to. A scan that ran says whether it found
/// nothing, and the repository is modified exactly when it found something;
/// a scan that failed says why, and that becomes the failure.
pub open spec fn scan_verdict(scan: Result<bool, Seq<char>>) -> Result<bool, CleanErrorView> {
    match scan {
        Ok(found_nothing) => Ok(!found_nothing),
        Err(detail) => Err(
            CleanErrorView::IoError(IoErrorKind::Other, "Failed to get git status: "@ + detail),
        ),
    }
}

/// The value of a result that holds a flag.
pub open spec fn flag_result(r: Result<bool, CleanError>) -> Result<bool, CleanErrorView> {
    match r {
        Ok(b) => Ok(b),
        Err(e) => Err(e@),
    }
}

/// The value of the outcome of a scan.
pub open spec fn scan_view(scan: Result<bool, String>) -> Result<bool, Seq<char>> {
    match scan {
        Ok(found_nothing) => Ok(found_nothing),
        Err(detail) => Err(detail@),
    }
}

/// Judges the outcome of a status scan: whether the scan found nothing, or
/// why it failed.
pub fn scan_result(scan: Result<bool, String>) -> (r: Result<bool, CleanError>)
    ensures
        flag_result(r) == scan_verdict(scan_view(scan)),
        r matches Err(e) ==> is_status_failure(e@),
{
    match scan {
        Ok(found_nothing) => Ok(!found_nothing),
        Err(detail) => Err(step_failure("Failed to get git status: ", detail.as_str())),
    }
}

/// The parents of a new commit: the commit at the head, if there is one,
/// and none for the first commit of a repository.
pub fn parents_of<'a, 'r>(head: &'a Option<git2::Commit<'r>>) -> (r: Vec<&'a git2::Commit<'r>>)
    ensures
        r@.len() == if head is Some {
            1int
        } else {
            0int
        },
        head matches Some(commit) ==> *r@[0] == commit,
{
    let mut parents: Vec<&git2::Commit<'_>> = Vec::new();
    match head {
        Some(commit) => {
            parents.push(commit);
        },
        None => {},
    }
    parents
}

/// Snapshots the configuration directory if it has changed.
///
/// * No directory: nothing is done.
/// * A directory without a repository that opens: nothing is done, and no
///   repository is created.
/// * A repository without changes: nothing is done.
/// * A repository with changes: they are staged and committed.
pub fn check_and_commit(c2rust_dir: &NormalPath, store_exists: bool) -> (r: Result<
    StoreState,
    CleanError,
>)
    ensures
        !store_exists ==> r == Ok::<StoreState, CleanError>(StoreState::NoStore),
        store_exists ==> (r matches Ok(state) ==> state != StoreState::NoStore),
        r matches Err(e) ==> is_status_failure(e@) || is_commit_failure(e@),
{
    if !store_exists {
        return Ok(store_state(false, false, false));
    }
    let location = c2rust_dir.to_text();
    let repo = match open_repository(location.as_str()) {
        Ok(repo) => repo,
        Err(_) => {
            return Ok(store_state(true, false, false));
        },
    };
    let modified = match has_modifications(&repo) {
        Ok(modified) => modified,
        Err(e) => {
            return Err(e);
        },
    };
    let state = store_state(true, true, modified);
    if state.needs_commit() {
        match commit_changes(&repo) {
            Ok(_) => {},
            Err(e) => {
                return Err(e);
            },
        }
    }
    Ok(state)
}

/// Snapshots the configuration directory of the project at `root` if it has
/// changed; see [`check_and_commit`].
pub fn auto_commit_if_modified(root: &NormalPath, store_exists: bool) -> (r: Result<
    StoreState,
    CleanError,
>)
    ensures
        !store_exists ==> r == Ok::<StoreState, CleanError>(StoreState::NoStore),
        store_exists ==> (r matches Ok(state) ==> state != StoreState::NoStore),
        r matches Err(e) ==> is_status_failure(e@) || is_commit_failure(e@),
{
    let dir = store_dir(root);
    check_and_commit(&dir, store_exists)
}

} // verus!
