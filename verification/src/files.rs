//! Paths and files: adjoining a name to a directory, and asking the file
//! system whether a path names an existing file.
//!
//! The answer of the file system is carried in a `FileCheck` together with
//! the path that was asked about. Only this module makes checks, and only by
//! asking, so a check in hand is an answer that the file system gave for its
//! path.

use vstd::prelude::*;

verus! {

/// A path separator: `/`, or `\` as Windows also reads it.
pub open spec fn is_separator(c: char) -> bool {
    c == '/' || c == '\\'
}

/// The directory text starts with a Windows verbatim prefix (`\\?\`, with
/// either separator), under which the standard library rebuilds a path that
/// it extends instead of appending to it.
pub open spec fn is_verbatim(dir: Seq<char>) -> bool {
    dir.len() >= 3 && is_separator(dir[0]) && is_separator(dir[1]) && dir[2] == '?'
}

/// `path` is `name` adjoined to the directory `dir`: the two texts with at
/// most one path separator between them.
pub open spec fn is_joined_path(dir: Seq<char>, name: Seq<char>, path: Seq<char>) -> bool {
    exists|sep: Seq<char>|
        path == dir + sep + name && (sep == Seq::<char>::empty() || sep == seq!['/'] || sep
            == seq!['\\'])
}

/// What adjoining `name` to `dir` is known to give: the joined path, unless
/// `dir` carries a verbatim prefix.
pub open spec fn joins(dir: Seq<char>, name: Seq<char>, path: Seq<char>) -> bool {
    !is_verbatim(dir) ==> is_joined_path(dir, name, path)
}

/// A text is a name that adjoins a directory as one relative component.
pub open spec fn is_plain_file_name(name: Seq<char>) -> bool {
    &&& name.len() > 0
    &&& forall|i: int| 0 <= i < name.len() ==> name[i] != '/' && name[i] != '\\' && name[i] != ':'
}

/// The path `name` adjoined to the directory `dir`.
///
/// Trusted: wraps `std::path::Path::join` (with the conversion of the
/// result back to text). For a relative, single-component `name` the
/// documentation of `PathBuf::push` says the name is appended to `dir`,
/// with a separator in between unless none is needed (empty `dir`, a `dir`
/// that already ends in a separator, or a bare drive prefix). Nothing is
/// stated for a `dir` with a verbatim prefix, where the result is
/// normalised (`.` and `..` components removed).
#[verifier::external_body]
pub(crate) fn join_path(dir: &str, name: &str) -> (res: String)
    requires
        is_plain_file_name(name@),
    ensures
        joins(dir@, name@, res@),
{
    std::path::Path::new(dir).join(name).to_string_lossy().into_owned()
}

/// Whether `path` names an existing regular file.
///
/// Trusted: wraps `std::path::Path::is_file`. The answer depends on the
/// file system at the moment of the call, so nothing is stated of it.
#[verifier::external_body]
fn is_file(path: &str) -> bool {
    std::path::Path::new(path).is_file()
}

/// The answer of the file system to whether a path names an existing
/// regular file, with the path it was asked about.
#[derive(Debug)]
pub struct FileCheck {
    path: String,
    present: bool,
}

impl FileCheck {
    /// The path that was checked.
    pub closed spec fn checked(self) -> Seq<char> {
        self.path@
    }

    /// Whether the checked path named an existing file.
    pub closed spec fn found(self) -> bool {
        self.present
    }

    /// The path that was checked.
    pub fn path(&self) -> (res: &String)
        ensures
            res@ == self.checked(),
    {
        &self.path
    }

    /// Whether the checked path named an existing file.
    pub fn file_exists(&self) -> (res: bool)
        ensures
            res == self.found(),
    {
        self.present
    }
}

/// Asks the file system whether `path` names an existing regular file.
pub fn check_file(path: &str) -> (res: FileCheck)
    ensures
        res.checked() == path@,
{
    let present = is_file(path);
    FileCheck { path: String::from_str(path), present }
}

} // verus!
