//! Where the list file lives: in the user's home directory, or in the
//! current directory when no home directory can be found.

use std::path::PathBuf;
use vstd::prelude::*;

verus! {

/// `std::path::PathBuf`, carried through as it is: nothing in this library
/// looks inside a path.
#[verifier::external_type_specification]
#[verifier::external_body]
pub struct ExPathBuf(PathBuf);

/// The path that `Path::join` makes of the directory `dir` and `name`.
pub uninterp spec fn joined_path(dir: PathBuf, name: Seq<char>) -> PathBuf;

/// The path that `PathBuf::from` makes of the text `name`.
pub uninterp spec fn path_of(name: Seq<char>) -> PathBuf;

/// Calls `dirs::home_dir`, which asks the environment and the system's user
/// database for the home directory of the user. What it returns depends on
/// both, so nothing is claimed of it.
#[verifier::external_body]
fn home_dir() -> (home: Option<PathBuf>) {
    dirs::home_dir()
}

/// Calls `Path::join`, which makes a new path of `dir` with `name` adjoined.
/// Taken on trust: the result depends on `dir` and `name` alone.
#[verifier::external_body]
fn join_path(dir: &PathBuf, name: &str) -> (path: PathBuf)
    ensures
        path == joined_path(*dir, name@),
{
    dir.join(name)
}

/// Calls `PathBuf::from`, which makes a path of the text `name`. Taken on
/// trust: the result depends on `name` alone.
#[verifier::external_body]
fn path_from(name: &str) -> (path: PathBuf)
    ensures
        path == path_of(name@),
{
    PathBuf::from(name)
}

/// The path of the list file, and whether it had to be looked for outside
/// the home directory.
#[derive(Debug, PartialEq, Eq)]
pub struct StoragePath {
    /// The path of the list file.
    pub path: PathBuf,
    /// Whether no home directory was found, so that the path names a file
    /// in the current directory.
    pub fell_back: bool,
}

/// The name of the list file inside its directory.
pub open spec fn file_name() -> Seq<char> {
    "todo_list"@
}

/// What is told to the user when the list file is not in the home
/// directory.
pub open spec fn fallback_notice() -> Seq<char> {
    "could not find home directory, using curent location"@
}

/// The place of the list file, given the home directory if there is one.
pub open spec fn resolved(home: Option<PathBuf>) -> StoragePath {
    match home {
        Some(dir) => StoragePath { path: joined_path(dir, file_name()), fell_back: false },
        None => StoragePath { path: path_of(file_name()), fell_back: true },
    }
}

impl StoragePath {
    /// What to tell the user about this path, if anything: a notice when
    /// the list file is not in the home directory.
    pub fn notice(&self) -> (notice: Option<&'static str>)
        ensures
            notice is Some <==> self.fell_back,
            notice matches Some(text) ==> text@ == fallback_notice(),
    {
        if self.fell_back {
            Some("could not find home directory, using curent location")
        } else {
            None
        }
    }
}

/// Places the list file: in `home` where there is one, and else under its
/// bare name, which is looked up in the current directory.
pub fn resolve_storage_path(home: Option<PathBuf>) -> (place: StoragePath)
    ensures
        place == resolved(home),
{
    match home {
        Some(dir) => StoragePath { path: join_path(&dir, "todo_list"), fell_back: false },
        None => StoragePath { path: path_from("todo_list"), fell_back: true },
    }
}

/// Places the list file for the user who runs the program.
pub fn storage_path() -> (place: StoragePath)
    ensures
        exists|home: Option<PathBuf>| place == resolved(home),
{
    let home = home_dir();
    resolve_storage_path(home)
}

} // verus!
