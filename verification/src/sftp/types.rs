//! Remote file metadata and SFTP errors.
use vstd::prelude::*;

verus! {

/// The kind of a remote directory entry.
#[derive(Clone, Copy, Debug, PartialEq, Eq, Structural)]
pub enum FileType {
    File,
    Directory,
    Symlink,
    Unknown,
}

/// Metadata of one remote directory entry.
#[derive(Clone, Debug)]
pub struct FileInfo {
    pub name: String,
    pub path: String,
    pub file_type: FileType,
    pub size: u64,
    pub modified: i64,
    pub permissions: String,
    pub owner: Option<String>,
    pub group: Option<String>,
    pub is_symlink: bool,
    pub symlink_target: Option<String>,
}

/// The mathematical content of a `FileInfo`.
pub ghost struct FileInfoView {
    pub name: Seq<char>,
    pub path: Seq<char>,
    pub file_type: FileType,
    pub size: u64,
    pub modified: i64,
    pub permissions: Seq<char>,
    pub owner: Option<Seq<char>>,
    pub group: Option<Seq<char>>,
    pub is_symlink: bool,
    pub symlink_target: Option<Seq<char>>,
}

/// The view of an optional string.
pub open spec fn opt_view(s: Option<String>) -> Option<Seq<char>> {
    match s {
        Some(v) => Some(v@),
        None => None,
    }
}

/// The view of an optional character vector.
pub open spec fn opt_chars_view(s: Option<Vec<char>>) -> Option<Seq<char>> {
    match s {
        Some(v) => Some(v@),
        None => None,
    }
}

impl View for FileInfo {
    type V = FileInfoView;

    open spec fn view(&self) -> FileInfoView {
        FileInfoView {
            name: self.name@,
            path: self.path@,
            file_type: self.file_type,
            size: self.size,
            modified: self.modified,
            permissions: self.permissions@,
            owner: opt_view(self.owner),
            group: opt_view(self.group),
            is_symlink: self.is_symlink,
            symlink_target: opt_view(self.symlink_target),
        }
    }
}

/// Errors of remote file operations.
#[derive(Clone, Debug)]
pub enum SftpError {
    ChannelError(String),
    DirectoryNotFound(String),
    ProtocolError(String),
    SubsystemNotAvailable(String),
    InvalidPath(String),
    PermissionDenied(String),
    WriteError(String),
    AlreadyExists(String),
}

}
