//! Errors about one argument or file, reported beside results rather than ending the search.

use vstd::prelude::*;

use crate::target::LineRange;

verus! {

/// An error about one path (or one range of it), with a human-readable message.
#[derive(Clone, Debug, PartialEq, Eq)]
pub struct FileError {
    pub path: String,
    pub lines: Option<LineRange>,
    pub message: String,
}

impl FileError {
    pub open spec fn view_triple(self) -> (Seq<char>, Option<LineRange>, Seq<char>) {
        (self.path@, self.lines, self.message@)
    }

    pub fn new(path: &str, lines: Option<LineRange>, message: &str) -> (e: FileError)
        ensures
            e.view_triple() == (path@, lines, message@),
    {
        FileError { path: path.to_owned(), lines, message: message.to_owned() }
    }
}

} // verus!
