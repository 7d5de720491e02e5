//! What a walk of the watched directory reports of one file.
use vstd::prelude::*;

verus! {

/// One file or directory that a walk of the watched directory came by.
#[derive(Clone, Debug, PartialEq, Eq)]
pub struct FileEntry {
    /// The path of the file, by which it is known from one walk to the next.
    pub path: String,
    /// The extension of the file's name, without a dot; empty if it has none.
    pub extension: String,
    /// When the file was last modified, in nanoseconds since the Unix epoch
    /// (negative before it); `None` if that could not be read.
    pub modified: Option<i128>,
}

/// What a [`FileEntry`] holds, as mathematical values.
pub struct FileSeen {
    pub path: Seq<char>,
    pub extension: Seq<char>,
    pub modified: Option<i128>,
}

impl View for FileEntry {
    type V = FileSeen;

    open spec fn view(&self) -> FileSeen {
        FileSeen { path: self.path@, extension: self.extension@, modified: self.modified }
    }
}

impl DeepView for FileEntry {
    type V = FileSeen;

    open spec fn deep_view(&self) -> FileSeen {
        self@
    }
}

impl FileEntry {
    /// An entry for the file at `path`, whose name has the extension `extension`.
    pub fn new(path: &str, extension: &str, modified: Option<i128>) -> (entry: FileEntry)
        ensures
            entry@ == (FileSeen { path: path@, extension: extension@, modified }),
    {
        FileEntry { path: path.to_owned(), extension: extension.to_owned(), modified }
    }
}

} // verus!
