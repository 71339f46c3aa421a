//! The decoded data model: the fixed header, the transient on-wire records,
//! the retained folder and file summaries, the archive root entity, and the
//! error kinds a decode can end in.

use crate::index::BSAHashMap;
use vstd::prelude::*;

verus! {

/// The only archive version this decoder accepts.
pub const BSA_VERSION: u32 = 104;

/// Header flag bit: a flat list of nul-terminated filenames follows the
/// per-folder file-record blocks.
pub const FLAG_FILENAMES_PRESENT: u32 = 0x2;

/// Why a decode ended without a model.  A decode stops at the first error;
/// no partially populated archive is ever handed out.
#[derive(Clone, Copy, Debug, PartialEq, Eq, Structural)]
pub enum BsaError {
    /// The input ended before the structure being read was complete.
    Io,
    /// A structural violation: a zero length prefix, or a folder name whose
    /// hash does not match the folder record at the same table position.
    Format,
    /// The header's version field is not 104.
    UnsupportedVersion,
    /// A decoded folder name needed for hashing is not valid text.
    Encoding,
}

/// The fixed 36-byte archive header, all fields little-endian.
#[derive(Clone, Copy, Debug, PartialEq, Eq, Structural)]
pub struct BSAHeader {
    /// The four magic bytes, read as a little-endian word.
    pub magic: u32,
    /// Format version; must be 104.
    pub version: u32,
    /// Offset of the folder-record table.
    pub records_offset: u32,
    /// Archive flag bits; bit 0x2 announces the flat filename list.
    pub archive_flags: u32,
    /// Number of folder records.
    pub folder_count: u32,
    /// Total number of files over all folders.
    pub file_count: u32,
    /// Aggregate length of all folder names.
    pub total_folder_name_length: u32,
    /// Aggregate length of all file names.
    pub total_file_name_length: u32,
    /// Content-kind flag bits; not consumed by the decoder.
    pub file_flags: u32,
}

/// On-wire folder record: 16 bytes per folder, in the order the archive
/// stores them.
#[derive(Clone, Copy, Debug, PartialEq, Eq, Structural)]
pub struct BSAFolderRecord {
    /// Path hash of the folder's name.
    pub name_hash: u64,
    /// Number of files in the folder.
    pub count: u32,
    /// Offset of the folder's file-record block.
    pub offset: u32,
}

/// On-wire file record: 16 bytes per file, emitted in a contiguous block
/// per folder.
#[derive(Clone, Copy, Debug, PartialEq, Eq, Structural)]
pub struct BSAFileRecord {
    /// Path hash of the file's name and extension.
    pub name_hash: u64,
    /// Size in bytes of the file's content.
    pub size: u32,
    /// Offset of the file's content.
    pub offset: u32,
}

/// Retained folder summary, keyed by the folder's path hash.
#[derive(Clone, Copy, Debug, PartialEq, Eq, Structural)]
pub struct BSAFolder {
    /// Number of files in the folder.
    pub count: u32,
    /// Offset of the folder's file-record block.
    pub offset: u32,
}

/// Retained file summary, keyed by the file's path hash.
#[derive(Clone, Copy, Debug, PartialEq, Eq, Structural)]
pub struct BSAFile {
    /// Size in bytes of the file's content.
    pub size: u32,
    /// Offset of the file's content.
    pub offset: u32,
}

impl Default for BSAFolder {
    /// A folder with no files and no offset.
    fn default() -> (r: Self)
        ensures
            r == (BSAFolder { count: 0, offset: 0 }),
    {
        BSAFolder { count: 0, offset: 0 }
    }
}

impl Default for BSAFile {
    /// A file with no content and no offset.
    fn default() -> (r: Self)
        ensures
            r == (BSAFile { size: 0, offset: 0 }),
    {
        BSAFile { size: 0, offset: 0 }
    }
}

/// The fully decoded archive: the header, the two hash-indexed maps, and
/// the archive's bytes for later extraction of file contents.  Created only
/// on full decode success.
pub struct BSAArchive {
    /// The decoded header.
    pub header: BSAHeader,
    /// File summaries, keyed by path hash.
    pub files: BSAHashMap<BSAFile>,
    /// Folder summaries, keyed by path hash.
    pub folders: BSAHashMap<BSAFolder>,
    /// The archive's bytes, an independent handle for later random access.
    pub data: Vec<u8>,
}

} // verus!
