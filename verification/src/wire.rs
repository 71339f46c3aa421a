//! Mathematical description of the version-104 on-disk layout: header,
//! folder-record table, folder-name table interleaved with the per-folder
//! file-record blocks, and the optional flat filename list.  The decoder in
//! [`crate::parser`] is proved to return exactly what [`parse_v104`] says.

use crate::hash::spec_path_hash;
use crate::model::{
    BSAFile, BSAFileRecord, BSAFolder, BSAFolderRecord, BSAHeader, BsaError, BSA_VERSION,
    FLAG_FILENAMES_PRESENT,
};
use vstd::prelude::*;
use vstd::utf8::valid_utf8;

verus! {

/// Size in bytes of the fixed header.
pub const HEADER_SIZE: usize = 36;

/// Size in bytes of one folder record or one file record.
pub const RECORD_SIZE: usize = 16;

/// The little-endian 32-bit word at position `i`.
pub open spec fn le_u32_at(s: Seq<u8>, i: int) -> u32
    recommends
        0 <= i,
        i + 4 <= s.len(),
{
    (s[i] as int + s[i + 1] as int * 0x100 + s[i + 2] as int * 0x1_0000 + s[i + 3] as int
        * 0x100_0000) as u32
}

/// The little-endian 64-bit word at position `i`.
pub open spec fn le_u64_at(s: Seq<u8>, i: int) -> u64
    recommends
        0 <= i,
        i + 8 <= s.len(),
{
    (le_u32_at(s, i) as int + le_u32_at(s, i + 4) as int * 0x1_0000_0000) as u64
}

/// The header whose 36 bytes start at `pos`.
pub open spec fn header_at(s: Seq<u8>, pos: int) -> BSAHeader
    recommends
        0 <= pos,
        pos + HEADER_SIZE <= s.len(),
{
    BSAHeader {
        magic: le_u32_at(s, pos),
        version: le_u32_at(s, pos + 4),
        records_offset: le_u32_at(s, pos + 8),
        archive_flags: le_u32_at(s, pos + 12),
        folder_count: le_u32_at(s, pos + 16),
        file_count: le_u32_at(s, pos + 20),
        total_folder_name_length: le_u32_at(s, pos + 24),
        total_file_name_length: le_u32_at(s, pos + 28),
        file_flags: le_u32_at(s, pos + 32),
    }
}

/// The folder record whose 16 bytes start at `pos`.
pub open spec fn folder_record_at(s: Seq<u8>, pos: int) -> BSAFolderRecord
    recommends
        0 <= pos,
        pos + RECORD_SIZE <= s.len(),
{
    BSAFolderRecord {
        name_hash: le_u64_at(s, pos),
        count: le_u32_at(s, pos + 8),
        offset: le_u32_at(s, pos + 12),
    }
}

/// The file record whose 16 bytes start at `pos`.
pub open spec fn file_record_at(s: Seq<u8>, pos: int) -> BSAFileRecord
    recommends
        0 <= pos,
        pos + RECORD_SIZE <= s.len(),
{
    BSAFileRecord {
        name_hash: le_u64_at(s, pos),
        size: le_u32_at(s, pos + 8),
        offset: le_u32_at(s, pos + 12),
    }
}

/// The `n` consecutive folder records starting at `pos`.
pub open spec fn folder_records_at(s: Seq<u8>, pos: int, n: int) -> Seq<BSAFolderRecord>
    recommends
        0 <= pos,
        0 <= n,
        pos + n * RECORD_SIZE <= s.len(),
{
    Seq::new(n as nat, |i: int| folder_record_at(s, pos + RECORD_SIZE * i))
}

/// The folder map built by inserting each record's summary under its stored
/// hash, in table order; a repeated hash keeps the later record.
pub open spec fn folders_map_of(recs: Seq<BSAFolderRecord>) -> Map<u64, BSAFolder>
    decreases recs.len(),
{
    if recs.len() == 0 {
        Map::empty()
    } else {
        folders_map_of(recs.drop_last()).insert(
            recs.last().name_hash,
            BSAFolder { count: recs.last().count, offset: recs.last().offset },
        )
    }
}

/// Length-prefixed string at `pos`: one length byte `L`, then `L` bytes of
/// which the first `L - 1` are the content and the last is a terminator
/// (accepted silently even when not zero).  A zero length byte leaves no
/// room for the terminator and is a format violation; running out of input
/// is an input failure.
pub open spec fn parse_bzstring(s: Seq<u8>, pos: int) -> Result<(Seq<u8>, int), BsaError>
    recommends
        0 <= pos <= s.len(),
{
    if s.len() - pos < 1 {
        Err(BsaError::Io)
    } else if s[pos] == 0 {
        Err(BsaError::Format)
    } else if s.len() - (pos + 1) < s[pos] {
        Err(BsaError::Io)
    } else {
        Ok((s.subrange(pos + 1, pos + s[pos]), pos + 1 + s[pos]))
    }
}

/// Nul-terminated string at `pos`: bytes up to the first zero byte, which
/// is consumed but excluded; an unterminated remainder exhausts the input
/// and is an input failure.
pub open spec fn parse_nul_string(s: Seq<u8>, pos: int) -> Result<(Seq<u8>, int), BsaError>
    recommends
        0 <= pos <= s.len(),
    decreases s.len() - pos,
{
    if pos < 0 || pos >= s.len() {
        Err(BsaError::Io)
    } else if s[pos] == 0 {
        Ok((Seq::empty(), pos + 1))
    } else {
        match parse_nul_string(s, pos + 1) {
            Ok((content, end)) => Ok((seq![s[pos]] + content, end)),
            Err(e) => Err(e),
        }
    }
}

/// `n` file records read from `pos`, each inserted into `acc` under its
/// stored hash as it is read.
pub open spec fn files_map_from(s: Seq<u8>, pos: int, n: int, acc: Map<u64, BSAFile>) -> Result<
    (Map<u64, BSAFile>, int),
    BsaError,
>
    decreases n,
{
    if n <= 0 {
        Ok((acc, pos))
    } else if s.len() - pos < RECORD_SIZE {
        Err(BsaError::Io)
    } else {
        let r = file_record_at(s, pos);
        files_map_from(
            s,
            pos + RECORD_SIZE,
            n - 1,
            acc.insert(r.name_hash, BSAFile { size: r.size, offset: r.offset }),
        )
    }
}

/// The folder-name table interleaved with the per-folder file-record
/// blocks, from folder index `i` on.  Each step reads one length-prefixed
/// folder name, requires it to be valid text (it must be hashed) and its
/// hash to equal the stored hash of the folder record at the same table
/// position — the format's built-in self-check — and then reads that
/// record's declared count of file records.  Returns the decoded names, the
/// accumulated file map, and the position after the last block.
pub open spec fn parse_folders_section(
    s: Seq<u8>,
    pos: int,
    recs: Seq<BSAFolderRecord>,
    i: int,
    files: Map<u64, BSAFile>,
    names: Seq<Seq<u8>>,
) -> Result<(Seq<Seq<u8>>, Map<u64, BSAFile>, int), BsaError>
    decreases recs.len() - i,
{
    if i < 0 || i >= recs.len() {
        Ok((names, files, pos))
    } else {
        match parse_bzstring(s, pos) {
            Err(e) => Err(e),
            Ok((name, after_name)) => {
                if !valid_utf8(name) {
                    Err(BsaError::Encoding)
                } else if spec_path_hash(name, Seq::empty()) != recs[i].name_hash {
                    Err(BsaError::Format)
                } else {
                    match files_map_from(s, after_name, recs[i].count as int, files) {
                        Err(e) => Err(e),
                        Ok((files2, after_block)) => parse_folders_section(
                            s,
                            after_block,
                            recs,
                            i + 1,
                            files2,
                            names.push(name),
                        ),
                    }
                }
            },
        }
    }
}

/// `n` nul-terminated strings skipped from `pos`; yields the position after
/// the last one.
pub open spec fn skip_nul_strings(s: Seq<u8>, pos: int, n: int) -> Result<int, BsaError>
    decreases n,
{
    if n <= 0 {
        Ok(pos)
    } else {
        match parse_nul_string(s, pos) {
            Ok((_content, end)) => skip_nul_strings(s, end, n - 1),
            Err(e) => Err(e),
        }
    }
}

/// Everything a successful decode determines: the header, the folder-record
/// table, the folder names in table order, the two hash-keyed maps, the
/// position right after the last per-folder file-record block, and the
/// position where decoding stopped.
pub struct SpecArchive {
    /// The decoded header.
    pub header: BSAHeader,
    /// The folder-record table, in the order stored.
    pub records: Seq<BSAFolderRecord>,
    /// The decoded folder names, positionally aligned with `records`.
    pub names: Seq<Seq<u8>>,
    /// Folder summaries keyed by stored hash.
    pub folders: Map<u64, BSAFolder>,
    /// File summaries keyed by stored hash.
    pub files: Map<u64, BSAFile>,
    /// Position right after the last per-folder file-record block.
    pub body_end: int,
    /// Position right after everything the decode consumed.
    pub end: int,
}

/// The complete version-104 decode of `s`, starting at `pos`: header (whose
/// version must be 104), folder-record table, folder names with their
/// file-record blocks, and — only when the header's flag bit 0x2 is set —
/// the flat filename list.  A decode yields either a full model or the
/// first error encountered.
pub open spec fn parse_v104(s: Seq<u8>, pos: int) -> Result<SpecArchive, BsaError>
    recommends
        0 <= pos <= s.len(),
{
    if s.len() - pos < HEADER_SIZE {
        Err(BsaError::Io)
    } else {
        let header = header_at(s, pos);
        if header.version != BSA_VERSION {
            Err(BsaError::UnsupportedVersion)
        } else {
            let table_pos = pos + HEADER_SIZE;
            if s.len() - table_pos < header.folder_count * RECORD_SIZE {
                Err(BsaError::Io)
            } else {
                let records = folder_records_at(s, table_pos, header.folder_count as int);
                let folders = folders_map_of(records);
                match parse_folders_section(
                    s,
                    table_pos + header.folder_count * RECORD_SIZE,
                    records,
                    0,
                    Map::empty(),
                    Seq::empty(),
                ) {
                    Err(e) => Err(e),
                    Ok((names, files, body_end)) => {
                        if header.archive_flags & FLAG_FILENAMES_PRESENT == 0 {
                            Ok(
                                SpecArchive {
                                    header,
                                    records,
                                    names,
                                    folders,
                                    files,
                                    body_end,
                                    end: body_end,
                                },
                            )
                        } else {
                            match skip_nul_strings(s, body_end, header.file_count as int) {
                                Err(e) => Err(e),
                                Ok(end) => Ok(
                                    SpecArchive {
                                        header,
                                        records,
                                        names,
                                        folders,
                                        files,
                                        body_end,
                                        end,
                                    },
                                ),
                            }
                        }
                    },
                }
            }
        }
    }
}

/// Accumulator induction behind [`lemma_folder_names_match_records`]: when
/// the folder-name table decodes from folder index `i` on, every decoded
/// name hashes to the stored hash of the record at the same position.
proof fn lemma_section_names(
    s: Seq<u8>,
    pos: int,
    recs: Seq<BSAFolderRecord>,
    i: int,
    files: Map<u64, BSAFile>,
    names: Seq<Seq<u8>>,
)
    requires
        0 <= i <= recs.len(),
        names.len() == i,
        parse_folders_section(s, pos, recs, i, files, names) is Ok,
        forall|j: int|
            0 <= j < i ==> spec_path_hash(#[trigger] names[j], Seq::empty())
                == recs[j].name_hash,
    ensures
        ({
            let out = parse_folders_section(s, pos, recs, i, files, names)->Ok_0;
            &&& out.0.len() == recs.len()
            &&& forall|j: int|
                0 <= j < recs.len() ==> spec_path_hash(#[trigger] out.0[j], Seq::empty())
                    == recs[j].name_hash
        }),
    decreases recs.len() - i,
{
    if i < recs.len() {
        match parse_bzstring(s, pos) {
            Err(_e) => {
                assert(false);
            },
            Ok((name, after_name)) => {
                match files_map_from(s, after_name, recs[i].count as int, files) {
                    Err(_e) => {
                        assert(false);
                    },
                    Ok((files2, after_block)) => {
                        lemma_section_names(s, after_block, recs, i + 1, files2, names.push(name));
                    },
                }
            },
        }
    }
}

/// Every folder name decoded from a valid archive hashes to the stored
/// hash of the folder record at the same table position — the format's
/// built-in self-check, without which the decode aborts.
pub proof fn lemma_folder_names_match_records(s: Seq<u8>, pos: int)
    requires
        parse_v104(s, pos) is Ok,
    ensures
        ({
            let m = parse_v104(s, pos)->Ok_0;
            &&& m.names.len() == m.records.len()
            &&& forall|i: int|
                0 <= i < m.records.len() ==> spec_path_hash(#[trigger] m.names[i], Seq::empty())
                    == m.records[i].name_hash
        }),
{
    let header = header_at(s, pos);
    let table_pos = pos + HEADER_SIZE;
    let records = folder_records_at(s, table_pos, header.folder_count as int);
    lemma_section_names(
        s,
        table_pos + header.folder_count * RECORD_SIZE,
        records,
        0,
        Map::empty(),
        Seq::empty(),
    );
}

/// Every decoded folder name's hash is a key of the folder map: the name
/// found at each table position addresses the folder inserted from a record
/// with that very hash.
pub proof fn lemma_folder_names_in_map(s: Seq<u8>, pos: int)
    requires
        parse_v104(s, pos) is Ok,
    ensures
        ({
            let m = parse_v104(s, pos)->Ok_0;
            forall|i: int|
                0 <= i < m.names.len() ==> m.folders.contains_key(
                    spec_path_hash(#[trigger] m.names[i], Seq::empty()),
                )
        }),
{
    let m = parse_v104(s, pos)->Ok_0;
    lemma_folder_names_match_records(s, pos);
    lemma_folders_map_keys(m.records);
}

/// The folder map's keys are exactly the stored hashes of the records it
/// was built from.
proof fn lemma_folders_map_keys(recs: Seq<BSAFolderRecord>)
    ensures
        forall|i: int|
            0 <= i < recs.len() ==> folders_map_of(recs).contains_key(
                #[trigger] recs[i].name_hash,
            ),
    decreases recs.len(),
{
    if recs.len() > 0 {
        lemma_folders_map_keys(recs.drop_last());
        assert(forall|i: int|
            0 <= i < recs.len() - 1 ==> recs.drop_last()[i] == #[trigger] recs[i]);
    }
}

/// With the header's flag bit 0x2 clear no flat filename list is read:
/// decoding terminates right where the last per-folder file-record block
/// ends.
pub proof fn lemma_no_filename_list_when_flag_clear(s: Seq<u8>, pos: int)
    requires
        parse_v104(s, pos) is Ok,
        parse_v104(s, pos)->Ok_0.header.archive_flags & FLAG_FILENAMES_PRESENT == 0,
    ensures
        parse_v104(s, pos)->Ok_0.end == parse_v104(s, pos)->Ok_0.body_end,
{
}

} // verus!
