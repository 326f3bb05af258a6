//! Path and file-type utilities used by the traversal collaborator.

use vstd::prelude::*;

verus! {

/// The classification of a directory entry that traversal cares about.
#[derive(Clone, Copy, Debug, PartialEq, Eq, Structural)]
pub enum FileType {
    File,
    Dir,
    Symlink,
    Unknown,
}

/// The filesystem facts this module reads of an entry's type, as plain
/// values. The capability query of the metadata layer fills one in.
#[derive(Clone, Copy, Debug, PartialEq, Eq, Structural)]
pub struct FsFileType {
    pub is_dir: bool,
    pub is_file: bool,
    pub is_symlink: bool,
}

/// What `to_enum` classifies a set of type flags as: directory wins,
/// then regular file, then symbolic link, else unknown.
pub open spec fn classify(ft: FsFileType) -> FileType {
    if ft.is_dir {
        FileType::Dir
    } else if ft.is_file {
        FileType::File
    } else if ft.is_symlink {
        FileType::Symlink
    } else {
        FileType::Unknown
    }
}

/// Conversion of a filesystem-level file type into [`FileType`].
pub trait ToFileType {
    /// The classification this value denotes.
    spec fn file_type_spec(&self) -> FileType;

    /// Classify this value.
    fn to_enum(self) -> (r: FileType)
        ensures
            r == self.file_type_spec(),
    ;
}

fn to_enum(ft: FsFileType) -> (r: FileType)
    ensures
        r == classify(ft),
{
    if ft.is_dir {
        FileType::Dir
    } else if ft.is_file {
        FileType::File
    } else if ft.is_symlink {
        FileType::Symlink
    } else {
        FileType::Unknown
    }
}

impl ToFileType for FsFileType {
    open spec fn file_type_spec(&self) -> FileType {
        classify(*self)
    }

    fn to_enum(self) -> (r: FileType) {
        to_enum(self)
    }
}

/// Whether a path is unset: equal to the default, empty path.
pub fn empty(path: &str) -> (r: bool)
    ensures
        r == (path@.len() == 0),
{
    path.is_empty()
}

/// Whether a file name marks a hidden entry: it starts with `'.'`.
pub fn hidden_name(name: &str) -> (r: bool)
    ensures
        r == (name@.len() > 0 && name@[0] == '.'),
{
    if name.unicode_len() == 0 {
        false
    } else {
        name.get_char(0) == '.'
    }
}

/// Declares walkdir's directory-entry type so that signatures here can
/// carry it; the value is opaque to the verifier.
#[verifier::external_type_specification]
#[verifier::external_body]
pub struct ExDirEntry(walkdir::DirEntry);

/// The file name walkdir's DirEntry::file_name reports for an entry, as
/// a character sequence — `None` when it is not valid Unicode. The name
/// is a function of the entry value alone: the entry stores its path,
/// and file_name reads that path's final component (or the whole path
/// when there is no final component), making no system call.
pub uninterp spec fn entry_name_of(entry: walkdir::DirEntry) -> Option<Seq<char>>;

/// Relies on walkdir's DirEntry::file_name, which returns the final
/// component of the entry's stored path (or the whole path when there is
/// no final component), and on str conversion of that name; `None` when
/// the name is not valid Unicode. The result is [`entry_name_of`].
#[verifier::external_body]
fn entry_file_name(entry: &walkdir::DirEntry) -> (r: Option<String>)
    ensures
        r matches Some(s) ==> entry_name_of(*entry) == Some(s@),
        r is None ==> entry_name_of(*entry) is None,
{
    entry.file_name().to_str().map(|s| s.to_owned())
}

/// Whether a traversal entry is hidden: its file name exists as Unicode
/// and starts with `'.'`.
pub fn is_hidden(entry: &walkdir::DirEntry) -> (r: bool)
    ensures
        r == (entry_name_of(*entry) matches Some(n) && n.len() > 0 && n[0] == '.'),
{
    match entry_file_name(entry) {
        Some(name) => hidden_name(name.as_str()),
        None => false,
    }
}

} // verus!
