//! Paths of a dump bundle, and the two path operations of the standard
//! library that they are built from.

use vstd::prelude::*;

verus! {

/// The final component of `path` as `std::path::Path::file_name` gives it
/// on the platform that the library is built for, or `None` where the path
/// has none.
pub uninterp spec fn file_name_of(path: Seq<char>) -> Option<Seq<char>>;

/// `path` adjoined to `base` as `std::path::Path::join` gives it on the
/// platform that the library is built for.
pub uninterp spec fn joined(base: Seq<char>, path: Seq<char>) -> Seq<char>;

/// Calls `std::path::Path::file_name` on `path`. Nothing is proved of the
/// call: its result is only given the name `file_name_of`, which claims that
/// the same path always has the same final component.
#[verifier::external_body]
pub(crate) fn file_name(path: &str) -> (name: Option<String>)
    ensures
        match name {
            Some(n) => file_name_of(path@) == Some(n@),
            None => file_name_of(path@) is None,
        },
{
    match std::path::Path::new(path).file_name() {
        Some(name) => Some(name.to_string_lossy().into_owned()),
        None => None,
    }
}

/// Calls `std::path::Path::join` on `base` with `path`. Nothing is proved of
/// the call: its result is only given the name `joined`, which claims that
/// the same two paths always give the same path.
#[verifier::external_body]
pub(crate) fn join(base: &str, path: &str) -> (whole: String)
    ensures
        whole@ == joined(base@, path@),
{
    std::path::Path::new(base).join(path).to_string_lossy().into_owned()
}

/// The directory of a bundle at `root` that holds all of the queue.
pub open spec fn updates_dir(root: Seq<char>) -> Seq<char> {
    joined(root, "updates"@)
}

/// The file in the directory `updates` that holds the records, one a line.
pub open spec fn data_file(updates: Seq<char>) -> Seq<char> {
    joined(updates, "data.jsonl"@)
}

/// The directory in the directory `updates` that holds the content of
/// pending jobs, each file under its bare name.
pub open spec fn update_files_dir(updates: Seq<char>) -> Seq<char> {
    joined(updates, "update_files"@)
}

/// The directory of the bundle at `root` that holds all of the queue.
pub fn updates_path(root: &str) -> (path: String)
    ensures
        path@ == updates_dir(root@),
{
    join(root, "updates")
}

/// The file in the directory `updates` that holds the records.
pub fn data_file_path(updates: &str) -> (path: String)
    ensures
        path@ == data_file(updates@),
{
    join(updates, "data.jsonl")
}

/// The directory in the directory `updates` that holds the content of
/// pending jobs.
pub fn update_files_path(updates: &str) -> (path: String)
    ensures
        path@ == update_files_dir(updates@),
{
    join(updates, "update_files")
}

/// A name that can stand in a bundle: not empty, and free of `/`.
pub open spec fn is_bare(name: Seq<char>) -> bool {
    name.len() > 0 && forall|i: int| 0 <= i < name.len() ==> name[i] != '/'
}

/// The name under which the file at `path` enters a bundle: its final
/// component, where it has one that is bare.
pub open spec fn bundle_name(path: Seq<char>) -> Option<Seq<char>> {
    match file_name_of(path) {
        Some(name) => if is_bare(name) {
            Some(name)
        } else {
            None
        },
        None => None,
    }
}

/// Whether `name` is bare.
pub fn check_bare(name: &str) -> (bare: bool)
    ensures
        bare == is_bare(name@),
{
    let len = name.unicode_len();
    if len == 0 {
        return false;
    }
    let mut i: usize = 0;
    while i < len
        invariant
            len == name@.len(),
            i <= len,
            forall|j: int| 0 <= j < i ==> name@[j] != '/',
        decreases len - i,
    {
        if name.get_char(i) == '/' {
            return false;
        }
        i += 1;
    }
    true
}

} // verus!
