//! Where the state of a listing is kept, and the check that a stored state
//! belongs to the listing that was asked for.

use std::path::{Path, PathBuf};
use vstd::prelude::*;
use crate::text::{code_of, push_char};
use crate::fetcher::State;
use crate::resume::Progress;

verus! {

/// A borrowed file system path, `std::path::Path`.
#[verifier::external_type_specification]
#[verifier::external_body]
pub struct ExPath(Path);

/// An owned file system path, `std::path::PathBuf`.
#[verifier::external_type_specification]
#[verifier::external_body]
pub struct ExPathBuf(PathBuf);

/// The path that `std::path::Path::join` makes of a directory and a name.
pub uninterp spec fn joined(dir: &Path, name: Seq<char>) -> PathBuf;

/// `std::path::Path::join`: the path of `name` in the directory `dir`. The
/// claim is that the same directory and name give the same path each time.
#[verifier::external_body]
fn join(dir: &Path, name: &str) -> (res: PathBuf)
    ensures
        res == joined(dir, name@),
{
    dir.join(name)
}

/// A letter or a digit of ASCII.
pub open spec fn is_plain(c: char) -> bool {
    let n = c as int;
    ||| 0x30 <= n <= 0x39
    ||| 0x41 <= n <= 0x5a
    ||| 0x61 <= n <= 0x7a
}

/// `c` where it is a letter or a digit of ASCII, an underscore in place of
/// anything else.
pub open spec fn plain_or_underscore(c: char) -> char {
    if is_plain(c) {
        c
    } else {
        '_'
    }
}

/// The first page of the listing of the repositories that depend on `repo`.
pub open spec fn base_url_of(repo: Seq<char>) -> Seq<char> {
    "https://github.com/"@ + repo + "/network/dependents"@
}

/// The name of the file that holds the state of `repo`: the name of the
/// repository with an underscore for each character that is neither letter
/// nor digit, and the extension `.json`.
pub open spec fn file_name_of(repo: Seq<char>) -> Seq<char> {
    repo.map_values(|c: char| plain_or_underscore(c)) + ".json"@
}

/// The file that holds the state of `repo` under `cwd`, and the first page
/// of its listing.
pub fn normalize_args(cwd: &Path, repo: &str) -> (res: (PathBuf, String))
    ensures
        res.0 == joined(cwd, file_name_of(repo@)),
        res.1@ == base_url_of(repo@),
{
    let mut base_url = String::from_str("https://github.com/");
    base_url.append(repo);
    base_url.append("/network/dependents");
    let mut safe_filename = String::new();
    for c in it: repo.chars()
        invariant
            it.seq() == repo@,
            safe_filename@ == repo@.take(it.index() as int).map_values(
                |c: char| plain_or_underscore(c),
            ),
    {
        let n: u32 = code_of(c);
        let plain = (0x30 <= n && n <= 0x39) || (0x41 <= n && n <= 0x5a) || (0x61 <= n && n
            <= 0x7a);
        push_char(&mut safe_filename, if plain { c } else { '_' });
    }
    assert(repo@.take(repo@.len() as int) =~= repo@);
    safe_filename.append(".json");
    let path = join(cwd, safe_filename.as_str());
    (path, base_url)
}

/// A stored state belongs to another listing than the one asked for.
#[derive(Debug)]
pub struct Mismatch {
    /// The first page of the listing that was asked for.
    pub expected: String,
    /// The first page of the listing that the stored state is of.
    pub found: String,
}

/// The state of one listing together with the file that holds it.
#[derive(Debug)]
pub struct Loader {
    pub path: PathBuf,
    pub state: State,
}

impl Loader {
    /// A loader for `repo` that starts from nothing.
    pub fn new(cwd: &Path, repo: &str) -> (res: Self)
        ensures
            res.path == joined(cwd, file_name_of(repo@)),
            res.state@ == Progress::empty(base_url_of(repo@)),
    {
        let (path, base_url) = normalize_args(cwd, repo);
        let state = State::new(base_url);
        Self { path, state }
    }

    /// A loader for `repo` that goes on from `stored`, the state found in
    /// the file of `repo`; `None` says that there is no such file, and the
    /// loader then starts from nothing. A state of another listing is
    /// refused.
    pub fn load_or_create(cwd: &Path, repo: &str, stored: Option<State>) -> (res: Result<
        Self,
        Mismatch,
    >)
        ensures
            match stored {
                Some(state) => if state.base_url@ == base_url_of(repo@) {
                    &&& res matches Ok(loader)
                    &&& loader.path == joined(cwd, file_name_of(repo@))
                    &&& loader.state == state
                } else {
                    &&& res matches Err(mismatch)
                    &&& mismatch.expected@ == base_url_of(repo@)
                    &&& mismatch.found == state.base_url
                },
                None => {
                    &&& res matches Ok(loader)
                    &&& loader.path == joined(cwd, file_name_of(repo@))
                    &&& loader.state@ == Progress::empty(base_url_of(repo@))
                },
            },
    {
        let (path, base_url) = normalize_args(cwd, repo);
        match stored {
            Some(state) => {
                if state.base_url == base_url {
                    Ok(Self { path, state })
                } else {
                    Err(Mismatch { expected: base_url, found: state.base_url })
                }
            },
            None => {
                let state = State::new(base_url);
                Ok(Self { path, state })
            },
        }
    }
}

} // verus!
