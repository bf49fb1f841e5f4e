//! File descriptors, as a directory walk produces them, and their coarse
//! classification by extension.

use vstd::prelude::*;
use crate::path::{lower_extension, lower_extension_text};
use crate::text::text_eq;

verus! {

/// The coarse kind of a file.
#[derive(Clone, Copy, Debug, PartialEq, Eq, Structural)]
pub enum FileType {
    Image,
    Video,
    Document,
    Archive,
    Other,
}

/// A file found on disk: its path, size in bytes, modification time in
/// seconds since the epoch, kind and, once computed, its content hash.
#[derive(Clone, Debug)]
pub struct FileInfo {
    pub path: String,
    pub size: u64,
    pub modified: i64,
    pub file_type: FileType,
    pub hash: Option<String>,
}

/// What a [`FileInfo`] says, with its texts as character sequences.
pub struct FileInfoView {
    pub path: Seq<char>,
    pub size: u64,
    pub modified: i64,
    pub file_type: FileType,
    pub hash: Option<Seq<char>>,
}

/// The view of an optional text.
pub open spec fn opt_text(o: Option<String>) -> Option<Seq<char>> {
    match o {
        Some(s) => Some(s@),
        None => None,
    }
}

impl View for FileInfo {
    type V = FileInfoView;

    open spec fn view(&self) -> FileInfoView {
        FileInfoView {
            path: self.path@,
            size: self.size,
            modified: self.modified,
            file_type: self.file_type,
            hash: opt_text(self.hash),
        }
    }
}

/// A copy of an optional text.
pub fn copy_opt_text(o: &Option<String>) -> (r: Option<String>)
    ensures
        opt_text(r) == opt_text(*o),
{
    match o {
        Some(s) => Some(s.clone()),
        None => None,
    }
}

impl FileInfo {
    /// A copy of this descriptor.
    pub fn duplicate(&self) -> (r: FileInfo)
        ensures
            r@ == self@,
    {
        FileInfo {
            path: self.path.clone(),
            size: self.size,
            modified: self.modified,
            file_type: self.file_type,
            hash: copy_opt_text(&self.hash),
        }
    }
}

/// The kind of a file whose extension, in lower case, is `e`.
pub open spec fn file_type_for(e: Seq<char>) -> FileType {
    if e == "jpg"@ || e == "jpeg"@ || e == "png"@ || e == "gif"@ || e == "bmp"@ || e == "webp"@
        || e == "svg"@ {
        FileType::Image
    } else if e == "mp4"@ || e == "avi"@ || e == "mkv"@ || e == "mov"@ || e == "wmv"@ || e
        == "flv"@ || e == "webm"@ {
        FileType::Video
    } else if e == "pdf"@ || e == "doc"@ || e == "docx"@ || e == "txt"@ || e == "rtf"@ || e
        == "odt"@ {
        FileType::Document
    } else if e == "zip"@ || e == "rar"@ || e == "7z"@ || e == "tar"@ || e == "gz"@ || e
        == "bz2"@ {
        FileType::Archive
    } else {
        FileType::Other
    }
}

/// Settings of a directory walk: how deep to go and whether to follow
/// symbolic links.
pub struct DefaultFileScanner {
    pub max_depth: Option<usize>,
    pub follow_links: bool,
}

impl DefaultFileScanner {
    /// A walk without depth bound that does not follow links.
    pub fn new() -> (r: Self)
        ensures
            r.max_depth.is_none(),
            !r.follow_links,
    {
        DefaultFileScanner { max_depth: None, follow_links: false }
    }

    /// The same walk, bounded to `depth` levels.
    pub fn with_max_depth(self, depth: usize) -> (r: Self)
        ensures
            r.max_depth == Some(depth),
            r.follow_links == self.follow_links,
    {
        DefaultFileScanner { max_depth: Some(depth), ..self }
    }

    /// The same walk, following links or not.
    pub fn follow_links(self, follow: bool) -> (r: Self)
        ensures
            r.max_depth == self.max_depth,
            r.follow_links == follow,
    {
        DefaultFileScanner { follow_links: follow, ..self }
    }

    /// The kind of the file at `path`, by its extension.
    pub fn determine_file_type(path: &str) -> (r: FileType)
        ensures
            r == file_type_for(lower_extension(path@)),
    {
        let s = lower_extension_text(path);
        let e = s.as_str();
        if text_eq(e, "jpg") || text_eq(e, "jpeg") || text_eq(e, "png") || text_eq(e, "gif")
            || text_eq(e, "bmp") || text_eq(e, "webp") || text_eq(e, "svg") {
            FileType::Image
        } else if text_eq(e, "mp4") || text_eq(e, "avi") || text_eq(e, "mkv") || text_eq(e, "mov")
            || text_eq(e, "wmv") || text_eq(e, "flv") || text_eq(e, "webm") {
            FileType::Video
        } else if text_eq(e, "pdf") || text_eq(e, "doc") || text_eq(e, "docx") || text_eq(
            e,
            "txt",
        ) || text_eq(e, "rtf") || text_eq(e, "odt") {
            FileType::Document
        } else if text_eq(e, "zip") || text_eq(e, "rar") || text_eq(e, "7z") || text_eq(e, "tar")
            || text_eq(e, "gz") || text_eq(e, "bz2") {
            FileType::Archive
        } else {
            FileType::Other
        }
    }
}

} // verus!
