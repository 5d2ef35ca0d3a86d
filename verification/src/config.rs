//! The configuration store kept as a file of its own:
//! `<root>/.c2rust/config.json`, one JSON object with the build directory.
//!
//! Reading and writing the file, and turning its text into a value, are the
//! caller's part. This module says where the file is, what is to be
//! written, what each way of failing is called, and how the stored
//! directory relates to the project root.

use crate::error::{prefixed, CleanError, CleanErrorView, IoErrorKind};
use crate::git_helper::{store_dir, store_name};
use crate::path::{
    build_dir_path, climbs, lemma_relative_dir_stays_inside, path_result, relative_dir,
    split_names, NormalPath, PathView,
};
use crate::root::{lemma_nearest_from, nearest, nearest_flagged};
use crate::text::{join_texts, same_text, texts};
use vstd::prelude::*;
use vstd::string::*;

verus! {

/// The stored record: the build directory, relative to the project root.
#[derive(Debug, Clone, PartialEq, Eq)]
pub struct Config {
    /// The build directory relative to the directory that holds `.c2rust`.
    pub build_dir: String,
}

/// What the caller found where the configuration file should be.
#[derive(Debug, Clone, PartialEq, Eq)]
pub enum StoredFile {
    /// There is no such file.
    Missing,
    /// The file is there but could not be read.
    Unreadable(IoErrorKind, String),
    /// The file does not hold a record; the text says what is wrong.
    Malformed(String),
    /// The file holds a record with this build directory.
    Parsed(String),
}

/// What saving a record asks of the caller.
#[derive(Debug)]
pub struct SavePlan {
    /// The directory to create first, if it is not there yet.
    pub create_dir: Option<NormalPath>,
    /// Whether a repository is to be created in that directory, so that the
    /// store has a history from its first save on.
    pub create_repository: bool,
    /// The file to write.
    pub file: NormalPath,
    /// The record to write into it.
    pub config: Config,
}

/// The name of the configuration file inside the configuration directory.
pub open spec fn config_file_name() -> Seq<char> {
    "config.json"@
}

/// Where the configuration file of the project at `root` is.
pub open spec fn config_file_of(root: PathView) -> PathView {
    root.child(store_name()).child(config_file_name())
}

/// What a search for the configuration directory comes to: the nearest
/// directory that was found to hold one, or the starting directory itself
/// if none was.
pub open spec fn c2rust_root_of(current: PathView, has_store: Seq<bool>) -> PathView {
    match nearest(has_store, current.depth()) {
        Some(up) => current.ancestor(up),
        None => current,
    }
}

/// What loading comes to for each state of the file.
pub open spec fn load_verdict(root: PathView, file: StoredFile) -> Result<
    Seq<char>,
    CleanErrorView,
> {
    match file {
        StoredFile::Missing => Err(
            CleanErrorView::IoError(
                IoErrorKind::NotFound,
                "Configuration file not found: "@ + config_file_of(root).text()
                    + ". Please run the command from a build directory first to save the configuration."@,
            ),
        ),
        StoredFile::Unreadable(kind, reason) => Err(CleanErrorView::IoError(kind, reason@)),
        StoredFile::Malformed(reason) => Err(
            CleanErrorView::IoError(
                IoErrorKind::InvalidData,
                "Failed to parse config: "@ + reason@,
            ),
        ),
        StoredFile::Parsed(build_dir) => Ok(build_dir@),
    }
}

/// The value of a result that holds a record.
pub open spec fn record_result(r: Result<Config, CleanError>) -> Result<Seq<char>, CleanErrorView> {
    match r {
        Ok(c) => Ok(c.build_dir@),
        Err(e) => Err(e@),
    }
}

/// The value of a result that holds text.
pub open spec fn text_result(r: Result<String, CleanError>) -> Result<Seq<char>, CleanErrorView> {
    match r {
        Ok(s) => Ok(s@),
        Err(e) => Err(e@),
    }
}

/// Loading gives back what was saved: a file that holds the record that
/// [`Config::save`] planned for a build directory loads as exactly that
/// build directory, whatever the directory is. Writing the record into the
/// file and reading it out of the file again is the caller's part and is
/// not spoken of here.
pub proof fn lemma_load_gives_back_what_was_saved(
    root: &NormalPath,
    build_dir: &str,
    store_exists: bool,
    plan: SavePlan,
)
    requires
        call_ensures(Config::save, (root, build_dir, store_exists), plan),
    ensures
        load_verdict(root@, StoredFile::Parsed(plan.config.build_dir)) == Ok::<
            Seq<char>,
            CleanErrorView,
        >(build_dir@),
{
}

/// The configuration file of the project at `root`.
pub fn config_file(root: &NormalPath) -> (r: NormalPath)
    ensures
        r@ == config_file_of(root@),
        r@.valid(),
{
    proof {
        reveal_strlit("config.json");
        assert("config.json"@[0] == 'c');
        assert forall|i: int| 0 <= i < "config.json"@.len() implies "config.json"@[i] != '/' by {}
    }
    let dir = store_dir(root);
    match dir.child("config.json") {
        Some(file) => file,
        None => dir,
    }
}

/// The failure to report when a record could not be turned into text.
pub fn serialize_failure(reason: &str) -> (r: CleanError)
    ensures
        r@ == CleanErrorView::IoError(
            IoErrorKind::InvalidData,
            "Failed to serialize config: "@ + reason@,
        ),
{
    CleanError::IoError(IoErrorKind::InvalidData, prefixed("Failed to serialize config: ", reason))
}

impl Config {
    /// Finds the directory that holds the configuration directory,
    /// searching from `current_dir` upwards.
    ///
    /// `has_store[i]` says whether the directory `i` levels above
    /// `current_dir` holds a `.c2rust` directory. The nearest such
    /// directory is the answer; if there is none, `current_dir` itself is.
    /// The search never fails.
    pub fn find_c2rust_root(current_dir: &NormalPath, has_store: &Vec<bool>) -> (r: Result<
        NormalPath,
        CleanError,
    >)
        ensures
            path_result(r) == Ok::<PathView, CleanErrorView>(
                c2rust_root_of(current_dir@, has_store@),
            ),
    {
        match nearest_flagged(has_store, current_dir.depth()) {
            Some(up) => {
                proof {
                    lemma_nearest_from(has_store@, current_dir@.depth(), 0);
                }
                Ok(current_dir.ancestor(up))
            },
            None => Ok(current_dir.duplicate()),
        }
    }

    /// The path of `current_dir` relative to `c2rust_root`.
    ///
    /// A directory outside the root is no failure: the answer is then `.`,
    /// as it is for the root itself. The caller can tell the two apart with
    /// [`NormalPath::starts_with`] and warn. The answer is never empty.
    pub fn calculate_relative_dir(c2rust_root: &NormalPath, current_dir: &NormalPath) -> (r:
        Result<String, CleanError>)
        ensures
            text_result(r) == Ok::<Seq<char>, CleanErrorView>(
                relative_dir(c2rust_root@, current_dir@),
            ),
            r matches Ok(dir) && dir@.len() > 0 && !climbs(dir@),
    {
        let names = current_dir.names_below(c2rust_root);
        proof {
            use_type_invariant(current_dir);
            current_dir.lemma_valid();
            lemma_relative_dir_stays_inside(c2rust_root@, current_dir@);
            reveal_strlit(".");
            reveal_strlit("/");
            assert("."@ =~= seq!['.']);
            assert("/"@ =~= seq!['/']);
        }
        if names.len() == 0 {
            Ok(String::from_str("."))
        } else {
            Ok(join_texts(&names, "/"))
        }
    }

    /// Plans the saving of `build_dir` for the project at `c2rust_root`:
    /// the configuration directory is to be created unless it exists, and
    /// the record is to be written to the configuration file. The save
    /// that creates the directory is the first one, and the only one that
    /// creates a repository in it.
    pub fn save(c2rust_root: &NormalPath, build_dir: &str, store_exists: bool) -> (r: SavePlan)
        ensures
            r.create_dir is None <==> store_exists,
            r.create_repository == !store_exists,
            r.create_dir matches Some(d) ==> d@ == c2rust_root@.child(store_name()),
            r.file@ == config_file_of(c2rust_root@),
            r.config.build_dir@ == build_dir@,
    {
        let create_dir = if store_exists {
            None
        } else {
            Some(store_dir(c2rust_root))
        };
        SavePlan {
            create_dir: create_dir,
            create_repository: !store_exists,
            file: config_file(c2rust_root),
            config: Config { build_dir: String::from_str(build_dir) },
        }
    }

    /// The record of the project at `c2rust_root`, given what was found
    /// where its configuration file should be.
    pub fn load(c2rust_root: &NormalPath, file: StoredFile) -> (r: Result<Config, CleanError>)
        ensures
            record_result(r) == load_verdict(c2rust_root@, file),
    {
        match file {
            StoredFile::Missing => {
                let location = config_file(c2rust_root).to_text();
                let mut message = prefixed("Configuration file not found: ", location.as_str());
                message.append(
                    ". Please run the command from a build directory first to save the configuration.",
                );
                Err(CleanError::IoError(IoErrorKind::NotFound, message))
            },
            StoredFile::Unreadable(kind, reason) => Err(CleanError::IoError(kind, reason)),
            StoredFile::Malformed(reason) => Err(
                CleanError::IoError(
                    IoErrorKind::InvalidData,
                    prefixed("Failed to parse config: ", reason.as_str()),
                ),
            ),
            StoredFile::Parsed(build_dir) => Ok(Config { build_dir: build_dir }),
        }
    }

    /// The build directory as a path below `c2rust_root`, if the stored
    /// directory is `.` or a list of normal names separated by `/`.
    pub fn get_build_dir_path(c2rust_root: &NormalPath, config: &Config) -> (r: Option<
        NormalPath,
    >)
        ensures
            match r {
                Some(p) => build_dir_path(c2rust_root@, config.build_dir@) == Some(p@),
                None => build_dir_path(c2rust_root@, config.build_dir@) is None,
            },
    {
        proof {
            reveal_strlit(".");
            assert("."@ =~= seq!['.']);
        }
        let names = if same_text(config.build_dir.as_str(), ".") {
            let none: Vec<String> = Vec::new();
            assert(texts(none@) =~= Seq::<Seq<char>>::empty());
            none
        } else {
            split_names(config.build_dir.as_str())
        };
        c2rust_root.descend(&names)
    }
}

} // verus!
