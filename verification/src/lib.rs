//! Decoder for Bethesda Softworks Archive (BSA) containers, version 104.
//!
//! The archive indexes folders and files by a 64-bit hash of their original
//! path rather than by name.  This library computes that path hash bit for
//! bit ([`hash`]), keeps decoded records in hash-keyed maps ([`index`]),
//! states the on-disk layout as a mathematical grammar over bytes
//! ([`wire`]), and decodes an in-memory byte buffer sequentially into an
//! archive model ([`parser`]): header, folder-record table, folder-name
//! table interleaved with per-folder file-record blocks, and the optional
//! flat filename list.  A decode either yields a fully populated
//! [`BSAArchive`] or stops at the first error; partial results are never
//! handed out.

pub mod hash;
pub mod index;
pub mod model;
pub mod parser;
pub mod wire;

pub use hash::{path_hash, rolling_hash};
pub use index::BSAHashMap;
pub use model::{
    BSAArchive, BSAFile, BSAFileRecord, BSAFolder, BSAFolderRecord, BSAHeader, BsaError,
};
pub use parser::BSAParser;
