//! One discovered regular file and what is known of it.
use vstd::prelude::*;

verus! {

/// One regular file found by a scan.
pub struct FileInfo {
    /// Path relative to the scanned root, with `/` between components.
    pub filepath: String,
    pub size_in_bytes: usize,
    pub is_binary: bool,
    pub file_too_large: bool,
    /// Fixed when the file is scanned: a directory above it is ignored.
    pub should_be_ignored: bool,
    /// Present once the content was loaded successfully.
    pub file_content: Option<String>,
}

/// The mathematical model of a [`FileInfo`].
pub struct FileView {
    pub path: Seq<char>,
    pub size: nat,
    pub is_binary: bool,
    pub too_large: bool,
    pub ignored: bool,
    pub content: Option<Seq<char>>,
}

impl View for FileInfo {
    type V = FileView;

    open spec fn view(&self) -> FileView {
        FileView {
            path: self.filepath@,
            size: self.size_in_bytes as nat,
            is_binary: self.is_binary,
            too_large: self.file_too_large,
            ignored: self.should_be_ignored,
            content: match self.file_content {
                Some(c) => Some(c@),
                None => None,
            },
        }
    }
}

impl FileView {
    /// A file is loaded exactly when it is neither binary, too large nor
    /// ignored.
    pub open spec fn should_load(self) -> bool {
        !self.is_binary && !self.too_large && !self.ignored
    }
}

impl FileInfo {
    /// A freshly scanned file: not yet classified, not too large, no content.
    pub fn new(filepath: String, size_in_bytes: usize, should_be_ignored: bool) -> (r: Self)
        ensures
            r@ == (FileView {
                path: filepath@,
                size: size_in_bytes as nat,
                is_binary: false,
                too_large: false,
                ignored: should_be_ignored,
                content: None,
            }),
    {
        FileInfo {
            filepath,
            size_in_bytes,
            is_binary: false,
            file_too_large: false,
            should_be_ignored,
            file_content: None,
        }
    }

    /// Whether the content of this file is to be loaded.
    pub fn content_should_be_loaded(&self) -> (r: bool)
        ensures
            r == self@.should_load(),
    {
        !self.is_binary && !self.file_too_large && !self.should_be_ignored
    }

    /// Whether content was loaded for this file.
    pub fn has_content_loaded(&self) -> (r: bool)
        ensures
            r == self@.content is Some,
    {
        self.file_content.is_some()
    }
}

} // verus!
