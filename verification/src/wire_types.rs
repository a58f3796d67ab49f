//! Messages of the file-system and system RPC endpoints between the host
//! tool and a board.
//!
//! Bounded strings and vectors of the wire format are held here as `String`
//! and `Vec`; the capacities that bound them on the wire are the constants
//! below, and [`fits_wire_capacity`] decides whether a string can be sent.
use vstd::prelude::*;

verus! {

/// Capacity in bytes of a path on the wire.
pub const FS_PATH_CAP: usize = 128;

/// Capacity in bytes of a directory entry name.
pub const FS_NAME_CAP: usize = 64;

/// Capacity in bytes of the data of one read response.
pub const FS_READ_DATA_CAP: usize = 2048;

/// Capacity in entries of one directory page.
pub const FS_DIR_PAGE_CAP: usize = 32;

/// Capacity in bytes of a panic message.
pub const PANIC_MSG_CAP: usize = 64;

/// Result code of a file-system request.
#[derive(Debug, Clone, Copy, PartialEq, Eq, Structural)]
pub enum FsError {
    /// The request succeeded.
    Success,
    NotFound,
    NotDir,
    IsDir,
    OffsetOutOfRange,
    Io,
    Busy,
    EpochMismatch,
}

/// Kind of a file-system node.
#[derive(Debug, Clone, Copy, PartialEq, Eq, Structural)]
pub enum FsNodeKind {
    File,
    Dir,
}

/// Request for file-system information.
#[derive(Debug, Clone, Copy)]
pub struct FsInfoReq;

/// File-system information.
#[derive(Debug)]
pub struct FsInfoResp {
    pub err: FsError,
    pub epoch: u32,
    pub max_chunk: u16,
    pub max_dir_entries: u16,
    pub uptime_ms: u64,
    pub fs_ready: bool,
    pub current_log_dir: Option<String>,
    pub artifact_timestamp_ms: Option<u64>,
}

/// One entry of a directory listing.
#[derive(Debug)]
pub struct FsDirEntry {
    pub kind: FsNodeKind,
    pub name: String,
}

/// Request for one page of a directory listing.
#[derive(Debug)]
pub struct FsListDirReq {
    pub path: String,
    pub cursor: u32,
    pub max_entries: u16,
    pub expected_epoch: Option<u32>,
}

/// One page of a directory listing; `next_cursor` is 0 on the last page.
#[derive(Debug)]
pub struct FsListDirResp {
    pub err: FsError,
    pub epoch: u32,
    pub entries: Vec<FsDirEntry>,
    pub next_cursor: u32,
}

/// Request for the metadata of a path.
#[derive(Debug)]
pub struct FsStatReq {
    pub path: String,
    pub expected_epoch: Option<u32>,
}

/// Metadata of a path.
#[derive(Debug, Clone, Copy)]
pub struct FsStatResp {
    pub err: FsError,
    pub epoch: u32,
    pub kind: FsNodeKind,
    pub size_bytes: u32,
}

/// Request for a chunk of a file.
#[derive(Debug)]
pub struct FsReadFileReq {
    pub path: String,
    pub offset: u32,
    pub len: u16,
    pub expected_epoch: Option<u32>,
}

/// A chunk of a file.
#[derive(Debug)]
pub struct FsReadFileResp {
    pub err: FsError,
    pub epoch: u32,
    pub offset: u32,
    pub data: Vec<u8>,
    pub done: bool,
}

/// Request to remove a path.
#[derive(Debug)]
pub struct FsRemoveReq {
    pub path: String,
    pub expected_epoch: Option<u32>,
}

/// Result of a removal.
#[derive(Debug, Clone, Copy)]
pub struct FsRemoveResp {
    pub err: FsError,
    pub epoch: u32,
}

/// Request to erase the whole storage.
#[derive(Debug, Clone, Copy)]
pub struct FsEraseStorageReq {
    pub expected_epoch: Option<u32>,
}

/// Result of an erase.
#[derive(Debug, Clone, Copy)]
pub struct FsEraseStorageResp {
    pub err: FsError,
    pub epoch: u32,
}

/// Request to reset the board.
#[derive(Debug, Clone, Copy)]
pub struct ResetReq;

/// Answer to a reset request.
#[derive(Debug, Clone, Copy)]
pub struct ResetResp {
    pub ok: bool,
}

/// Request to panic the board with a message.
#[derive(Debug)]
pub struct PanicReq {
    pub message: String,
}

/// Answer to a panic request.
#[derive(Debug, Clone, Copy)]
pub struct PanicResp {
    pub accepted: bool,
}

/// Whether a string fits a wire string of `cap` bytes.
pub fn fits_wire_capacity(s: &str, cap: usize) -> (r: bool)
    ensures
        r == (vstd::utf8::encode_utf8(s@).len() <= cap),
{
    s.as_bytes().len() <= cap
}

} // verus!
