//! Finding an executable on a search path.
//!
//! The host lists the directories; this module decides which entry, if any,
//! a command name resolves to.

use vstd::prelude::*;
use crate::text::str_eq;
use crate::words::{pieces, split, words_of};

verus! {

/// What the file system reports of one directory entry, without following
/// a symbolic link.
#[derive(Clone, Copy, Debug, PartialEq, Eq, Structural)]
pub struct Metadata {
    /// The entry is a regular file.
    pub is_file: bool,
    /// The entry is a symbolic link.
    pub is_symlink: bool,
    /// The permission bits of the entry.
    pub mode: u32,
}

/// One entry of a directory on the search path.
#[derive(Clone, Debug)]
pub struct Entry {
    /// The entry's name within its directory.
    pub name: String,
    /// The entry's full path, as it is shown to the user.
    pub path: String,
    /// The entry's metadata, or `None` where it could not be read.
    pub metadata: Option<Metadata>,
}

/// One directory of the search path, as the host found it.
#[derive(Clone, Debug)]
pub struct Directory {
    /// The entries in the order in which the directory lists them, or `None`
    /// where the directory could not be read.
    pub entries: Option<Vec<Entry>>,
}

/// The permission bits that let the owner, the group or others execute.
pub const EXECUTE_BITS: u32 = 0o111;

/// An entry can be executed if it is a regular file or a symbolic link and at
/// least one execute bit is set. An entry without metadata cannot.
pub open spec fn executable(entry: Entry) -> bool {
    match entry.metadata {
        Some(m) => (m.is_file || m.is_symlink) && (m.mode & EXECUTE_BITS) != 0,
        None => false,
    }
}

/// Decides `executable`.
pub fn is_executable(entry: &Entry) -> (yes: bool)
    ensures
        yes == executable(*entry),
{
    match entry.metadata {
        Some(m) => (m.is_file || m.is_symlink) && (m.mode & EXECUTE_BITS) != 0,
        None => false,
    }
}

/// The character that separates the directories in a search-path variable.
pub const PATH_SEPARATOR: char = ':';

/// Splits the value of a search-path variable into its directories, in
/// order. An empty stretch between two separators, or at either end, is kept
/// as an empty directory name.
pub fn split_paths(path_variable: &str) -> (directories: Vec<String>)
    ensures
        words_of(directories@) == pieces(path_variable@, PATH_SEPARATOR),
{
    split(path_variable, PATH_SEPARATOR)
}

/// An entry answers a command name if it bears exactly that name and can be
/// executed.
pub open spec fn answers(name: Seq<char>, entry: Entry) -> bool {
    entry.name@ == name && executable(entry)
}

/// Index of the first entry that answers `name`.
pub open spec fn first_answer(name: Seq<char>, entries: Seq<Entry>) -> Option<int>
    decreases entries.len(),
{
    if entries.len() == 0 {
        None
    } else if answers(name, entries[0]) {
        Some(0)
    } else {
        match first_answer(name, entries.drop_first()) {
            Some(i) => Some(i + 1),
            None => None,
        }
    }
}

/// `first_answer` is the least index of an entry that answers, and `None`
/// exactly when no entry does.
pub proof fn lemma_first_answer(name: Seq<char>, entries: Seq<Entry>)
    ensures
        match first_answer(name, entries) {
            Some(i) => {
                &&& 0 <= i < entries.len()
                &&& answers(name, entries[i])
                &&& forall|j: int| 0 <= j < i ==> !answers(name, #[trigger] entries[j])
            },
            None => forall|j: int| 0 <= j < entries.len() ==> !answers(name, #[trigger] entries[j]),
        },
    decreases entries.len(),
{
    if entries.len() > 0 && !answers(name, entries[0]) {
        let rest = entries.drop_first();
        lemma_first_answer(name, rest);
        match first_answer(name, rest) {
            Some(i) => {
                assert forall|j: int| 0 <= j < i + 1 implies !answers(
                    name,
                    #[trigger] entries[j],
                ) by {
                    if j > 0 {
                        assert(entries[j] == rest[j - 1]);
                    }
                }
            },
            None => {
                assert forall|j: int| 0 <= j < entries.len() implies !answers(
                    name,
                    #[trigger] entries[j],
                ) by {
                    if j > 0 {
                        assert(entries[j] == rest[j - 1]);
                    }
                }
            },
        }
    }
}

/// The entries that a directory offers: none where it could not be read.
pub open spec fn offered(directory: Directory) -> Seq<Entry> {
    match directory.entries {
        Some(entries) => entries@,
        None => Seq::empty(),
    }
}

/// The path that `name` resolves to: that of the first entry that answers,
/// taking the directories in order and each directory's entries in order.
pub open spec fn located(name: Seq<char>, directories: Seq<Directory>) -> Option<Seq<char>>
    decreases directories.len(),
{
    if directories.len() == 0 {
        None
    } else {
        match first_answer(name, offered(directories[0])) {
            Some(i) => Some(offered(directories[0])[i].path@),
            None => located(name, directories.drop_first()),
        }
    }
}

/// The path that `name` resolves to where the search path may be unset: an
/// unset search path resolves nothing.
pub open spec fn resolved(name: Seq<char>, search_path: Option<Vec<Directory>>) -> Option<
    Seq<char>,
> {
    match search_path {
        Some(directories) => located(name, directories@),
        None => None,
    }
}

/// Finds the first entry of one directory listing that answers `command`.
pub fn find_in_directory(command: &str, entries: &Vec<Entry>) -> (found: Option<usize>)
    ensures
        match found {
            Some(i) => i < entries.len() && first_answer(command@, entries@) == Some(i as int),
            None => first_answer(command@, entries@) is None,
        },
{
    let mut i: usize = 0;
    while i < entries.len()
        invariant
            i <= entries.len(),
            forall|j: int| 0 <= j < i ==> !answers(command@, #[trigger] entries@[j]),
        decreases entries.len() - i,
    {
        let entry = &entries[i];
        if str_eq(entry.name.as_str(), command) && is_executable(entry) {
            proof {
                lemma_first_answer(command@, entries@);
            }
            return Some(i);
        }
        i += 1;
    }
    proof {
        lemma_first_answer(command@, entries@);
    }
    None
}

/// Finds the executable that a command name resolves to on the search path.
///
/// Directories that could not be read are passed over. An unset search path
/// resolves nothing.
pub fn find_path(command: &str, search_path: &Option<Vec<Directory>>) -> (found: Option<String>)
    ensures
        match found {
            Some(path) => resolved(command@, *search_path) == Some(path@),
            None => resolved(command@, *search_path) is None,
        },
{
    let directories = match search_path {
        Some(directories) => directories,
        None => {
            return None;
        },
    };
    let mut d: usize = 0;
    assert(directories@.skip(0) =~= directories@);
    while d < directories.len()
        invariant
            d <= directories.len(),
            resolved(command@, *search_path) == located(command@, directories@),
            located(command@, directories@) == located(command@, directories@.skip(d as int)),
        decreases directories.len() - d,
    {
        let ghost rest = directories@.skip(d as int);
        assert(rest[0] == directories@[d as int]);
        assert(rest.drop_first() =~= directories@.skip(d + 1));
        if let Some(entries) = &directories[d].entries {
            assert(offered(rest[0]) == entries@);
            if let Some(i) = find_in_directory(command, entries) {
                let path = entries[i].path.clone();
                return Some(path);
            }
        }
        d += 1;
    }
    assert(directories@.skip(d as int).len() == 0);
    None
}

} // verus!
