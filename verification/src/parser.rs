//! The sequential decoder: a cursor over the archive's bytes and the strict
//! version-104 decode sequence, proved against [`crate::wire::parse_v104`].

use crate::hash::name_hash;
use crate::index::BSAHashMap;
use crate::model::{
    BSAArchive, BSAFile, BSAFileRecord, BSAFolder, BSAFolderRecord, BSAHeader, BsaError,
    BSA_VERSION, FLAG_FILENAMES_PRESENT,
};
use crate::wire::{
    file_record_at, files_map_from, folder_record_at, folder_records_at, folders_map_of,
    header_at, le_u32_at, le_u64_at, parse_bzstring, parse_folders_section, parse_nul_string,
    parse_v104, skip_nul_strings, SpecArchive, HEADER_SIZE, RECORD_SIZE,
};
use vstd::prelude::*;
use vstd::slice::slice_to_vec;
use vstd::utf8::valid_utf8;

verus! {

/// Checks that a byte slice is valid text, as required before hashing a
/// decoded name.
///
/// Relies on str::from_utf8, which returns Ok exactly when the bytes are
/// valid UTF-8.
#[verifier::external_body]
fn utf8_check(v: &[u8]) -> (ok: bool)
    ensures
        ok == valid_utf8(v@),
{
    core::str::from_utf8(v).is_ok()
}

/// A cursor over the archive's bytes.  All reads advance sequentially; the
/// version-104 decode never backtracks.
pub struct BSAParser {
    data: Vec<u8>,
    pos: usize,
}

impl BSAParser {
    /// The bytes being decoded.
    pub closed spec fn bytes(&self) -> Seq<u8> {
        self.data@
    }

    /// The current read position.
    pub closed spec fn cursor(&self) -> int {
        self.pos as int
    }

    /// The cursor never passes the end of the bytes.
    pub open spec fn wf(&self) -> bool {
        0 <= self.cursor() <= self.bytes().len()
    }

    /// A parser at the start of the given bytes.
    pub fn new(data: Vec<u8>) -> (p: Self)
        ensures
            p.wf(),
            p.bytes() == data@,
            p.cursor() == 0,
    {
        BSAParser { data, pos: 0 }
    }

    /// The current read position, in bytes from the start.
    pub fn position(&self) -> (n: usize)
        ensures
            n == self.cursor(),
    {
        self.pos
    }

    /// The little-endian 32-bit word at byte offset `at`, without moving
    /// the cursor.
    fn get_u32_at(&self, at: usize) -> (w: u32)
        requires
            at + 4 <= self.bytes().len(),
        ensures
            w == le_u32_at(self.bytes(), at as int),
    {
        proof {
            // The view's length is the vector's usize length, so the
            // offsets below stay in bounds.
            assert(self.data.len() == self.data@.len());
        }
        let b0 = self.data[at] as u32;
        let b1 = self.data[at + 1] as u32;
        let b2 = self.data[at + 2] as u32;
        let b3 = self.data[at + 3] as u32;
        b0 + b1 * 0x100 + b2 * 0x1_0000 + b3 * 0x100_0000
    }

    /// The little-endian 64-bit word at byte offset `at`, without moving
    /// the cursor.
    fn get_u64_at(&self, at: usize) -> (w: u64)
        requires
            at + 8 <= self.bytes().len(),
        ensures
            w == le_u64_at(self.bytes(), at as int),
    {
        proof {
            assert(self.data.len() == self.data@.len());
        }
        let lo = self.get_u32_at(at);
        let hi = self.get_u32_at(at + 4);
        lo as u64 + (hi as u64) * 0x1_0000_0000
    }

    /// Read a length-prefixed string: one length byte, then that many
    /// bytes, the last of which is a terminator excluded from the content.
    /// A zero length byte is a format violation; a truncated read is an
    /// input failure, and either leaves the cursor where it was.
    #[verifier::loop_isolation(false)]
    pub fn read_bzstring(&mut self) -> (r: Result<Vec<u8>, BsaError>)
        requires
            old(self).wf(),
        ensures
            final(self).wf(),
            final(self).bytes() == old(self).bytes(),
            match r {
                Ok(v) => parse_bzstring(old(self).bytes(), old(self).cursor()) == Ok::<
                    (Seq<u8>, int),
                    BsaError,
                >((v@, final(self).cursor())),
                Err(e) => parse_bzstring(old(self).bytes(), old(self).cursor()) == Err::<
                    (Seq<u8>, int),
                    BsaError,
                >(e) && *final(self) == *old(self),
            },
    {
        if self.data.len() - self.pos < 1 {
            return Err(BsaError::Io);
        }
        let l = self.data[self.pos];
        if l == 0 {
            return Err(BsaError::Format);
        }
        if self.data.len() - (self.pos + 1) < l as usize {
            return Err(BsaError::Io);
        }
        let ghost gs = self.data@;
        let ghost gp = self.pos as int;
        let start = self.pos + 1;
        let content_len = (l - 1) as usize;
        let mut v: Vec<u8> = Vec::new();
        proof {
            assert(v@ =~= gs.subrange(gp + 1, gp + 1));
        }
        let mut k: usize = 0;
        while k < content_len
            invariant
                self.data@ == gs,
                self.pos as int == gp,
                0 <= gp,
                content_len == l - 1,
                gp + 1 + l <= gs.len(),
                k <= content_len,
                v@ == gs.subrange(gp + 1, gp + 1 + k),
            decreases content_len - k,
        {
            v.push(self.data[start + k]);
            k = k + 1;
            proof {
                assert(v@ =~= gs.subrange(gp + 1, gp + 1 + k));
            }
        }
        self.pos = self.pos + 1 + l as usize;
        proof {
            assert(v@ =~= gs.subrange(gp + 1, gp + gs[gp]));
        }
        Ok(v)
    }

    /// Read bytes until the first zero byte, which is consumed and excluded
    /// from the result; the cursor ends immediately after the terminator.
    /// An unterminated remainder exhausts the input and is an input
    /// failure.
    #[verifier::loop_isolation(false)]
    pub fn read_nul_string(&mut self) -> (r: Result<Vec<u8>, BsaError>)
        requires
            old(self).wf(),
        ensures
            final(self).wf(),
            final(self).bytes() == old(self).bytes(),
            match r {
                Ok(v) => parse_nul_string(old(self).bytes(), old(self).cursor()) == Ok::<
                    (Seq<u8>, int),
                    BsaError,
                >((v@, final(self).cursor())),
                Err(e) => parse_nul_string(old(self).bytes(), old(self).cursor()) == Err::<
                    (Seq<u8>, int),
                    BsaError,
                >(e),
            },
    {
        let mut v: Vec<u8> = Vec::new();
        let ghost gs = self.data@;
        let ghost gp0 = self.pos as int;
        loop
            invariant
                self.wf(),
                self.data@ == gs,
                gp0 <= self.pos as int,
                parse_nul_string(gs, gp0) == (match parse_nul_string(gs, self.pos as int) {
                    Ok((c, e)) => Ok::<(Seq<u8>, int), BsaError>((v@ + c, e)),
                    Err(e) => Err::<(Seq<u8>, int), BsaError>(e),
                }),
            decreases gs.len() - self.pos,
        {
            if self.data.len() - self.pos < 1 {
                return Err(BsaError::Io);
            }
            let b = self.data[self.pos];
            let ghost vpre = v@;
            self.pos = self.pos + 1;
            if b == 0 {
                proof {
                    assert(v@ + Seq::<u8>::empty() =~= v@);
                }
                return Ok(v);
            }
            v.push(b);
            proof {
                let r = parse_nul_string(gs, self.pos as int);
                if r is Ok {
                    let c = r->Ok_0.0;
                    assert(vpre + (seq![b] + c) =~= v@ + c);
                }
            }
        }
    }

    /// Decode a version-104 archive from the cursor onward, in strict
    /// sequence: header, folder-record table, folder names interleaved with
    /// the per-folder file-record blocks, and — iff the header's flag bit
    /// 0x2 is set — the flat filename list.  The result is exactly what
    /// [`parse_v104`] says of the bytes: a full archive whose maps hold the
    /// decoded records and whose data is a fresh handle onto the same
    /// bytes, or the first error encountered and no model at all.
    #[verifier::loop_isolation(false)]
    #[verifier::rlimit(60)]
    pub fn v104(&mut self) -> (r: Result<BSAArchive, BsaError>)
        requires
            old(self).wf(),
        ensures
            final(self).wf(),
            final(self).bytes() == old(self).bytes(),
            match r {
                Ok(a) => {
                    &&& parse_v104(old(self).bytes(), old(self).cursor()) matches Ok(m)
                    &&& a.header == m.header
                    &&& a.folders@ == m.folders
                    &&& a.files@ == m.files
                    &&& a.data@ == old(self).bytes()
                    &&& final(self).cursor() == m.end
                },
                Err(e) => parse_v104(old(self).bytes(), old(self).cursor()) == Err::<
                    SpecArchive,
                    BsaError,
                >(e),
            },
    {
        let ghost s = self.data@;
        let ghost p0 = self.pos as int;

        // The fixed header.
        if self.data.len() - self.pos < HEADER_SIZE {
            return Err(BsaError::Io);
        }
        let header = BSAHeader {
            magic: self.get_u32_at(self.pos),
            version: self.get_u32_at(self.pos + 4),
            records_offset: self.get_u32_at(self.pos + 8),
            archive_flags: self.get_u32_at(self.pos + 12),
            folder_count: self.get_u32_at(self.pos + 16),
            file_count: self.get_u32_at(self.pos + 20),
            total_folder_name_length: self.get_u32_at(self.pos + 24),
            total_file_name_length: self.get_u32_at(self.pos + 28),
            file_flags: self.get_u32_at(self.pos + 32),
        };
        self.pos = self.pos + HEADER_SIZE;
        proof {
            assert(header == header_at(s, p0));
        }
        if header.version != BSA_VERSION {
            return Err(BsaError::UnsupportedVersion);
        }

        // The folder-record table, consumed into the folder map in table
        // order.
        let remaining = self.data.len() - self.pos;
        if (remaining as u64) < (header.folder_count as u64) * (RECORD_SIZE as u64) {
            return Err(BsaError::Io);
        }
        let ghost table_pos = self.pos as int;
        let ghost records = folder_records_at(s, table_pos, header.folder_count as int);
        let mut recs: Vec<BSAFolderRecord> = Vec::new();
        let mut folders: BSAHashMap<BSAFolder> = BSAHashMap::new();
        proof {
            assert(records.take(0) =~= Seq::<BSAFolderRecord>::empty());
        }
        let mut j: u32 = 0;
        while j < header.folder_count
            invariant
                self.wf(),
                self.data@ == s,
                self.pos as int == table_pos + RECORD_SIZE * j,
                j <= header.folder_count,
                recs@ == records.take(j as int),
                folders@ == folders_map_of(records.take(j as int)),
            decreases header.folder_count - j,
        {
            let rec = BSAFolderRecord {
                name_hash: self.get_u64_at(self.pos),
                count: self.get_u32_at(self.pos + 8),
                offset: self.get_u32_at(self.pos + 12),
            };
            self.pos = self.pos + RECORD_SIZE;
            folders.insert(rec.name_hash, BSAFolder { count: rec.count, offset: rec.offset });
            recs.push(rec);
            j = j + 1;
            proof {
                assert(rec == folder_record_at(s, table_pos + RECORD_SIZE * (j - 1)));
                assert(records.take(j as int).drop_last() =~= records.take(j - 1));
                assert(records.take(j as int).last() == records[j - 1]);
                assert(recs@ =~= records.take(j as int));
            }
        }
        proof {
            assert(records.take(header.folder_count as int) =~= records);
        }

        // Folder names, each checked against the folder record at the same
        // table position, interleaved with that folder's file records.
        let ghost section_start = self.pos as int;
        let mut files: BSAHashMap<BSAFile> = BSAHashMap::new();
        let ghost mut gnames: Seq<Seq<u8>> = Seq::empty();
        let mut i: u32 = 0;
        while i < header.folder_count
            invariant
                self.wf(),
                self.data@ == s,
                i <= header.folder_count,
                gnames.len() == i,
                parse_folders_section(s, section_start, records, 0, Map::empty(), Seq::empty())
                    == parse_folders_section(
                    s,
                    self.pos as int,
                    records,
                    i as int,
                    files@,
                    gnames,
                ),
            decreases header.folder_count - i,
        {
            let ghost iter_pos = self.pos as int;
            let ghost iter_files = files@;
            let name = match self.read_bzstring() {
                Ok(v) => v,
                Err(e) => {
                    return Err(e);
                },
            };
            if !utf8_check(name.as_slice()) {
                return Err(BsaError::Encoding);
            }
            let h = name_hash(name.as_slice());
            let rec = recs[i as usize];
            if h != rec.name_hash {
                return Err(BsaError::Format);
            }
            let ghost inner_start = self.pos as int;
            let mut k: u32 = 0;
            while k < rec.count
                invariant
                    self.wf(),
                    self.data@ == s,
                    k <= rec.count,
                    files_map_from(s, inner_start, rec.count as int, iter_files)
                        == files_map_from(
                        s,
                        self.pos as int,
                        rec.count as int - k as int,
                        files@,
                    ),
                decreases rec.count - k,
            {
                if self.data.len() - self.pos < RECORD_SIZE {
                    return Err(BsaError::Io);
                }
                let frec = BSAFileRecord {
                    name_hash: self.get_u64_at(self.pos),
                    size: self.get_u32_at(self.pos + 8),
                    offset: self.get_u32_at(self.pos + 12),
                };
                proof {
                    assert(frec == file_record_at(s, self.pos as int));
                }
                self.pos = self.pos + RECORD_SIZE;
                files.insert(frec.name_hash, BSAFile { size: frec.size, offset: frec.offset });
                k = k + 1;
            }
            i = i + 1;
            proof {
                gnames = gnames.push(name@);
            }
        }
        let ghost body_end = self.pos as int;

        // The flat filename list, present only when the header announces
        // it; with the flag clear nothing past the last block is read.
        if header.archive_flags & FLAG_FILENAMES_PRESENT != 0 {
            let mut k: u32 = 0;
            while k < header.file_count
                invariant
                    self.wf(),
                    self.data@ == s,
                    k <= header.file_count,
                    skip_nul_strings(s, body_end, header.file_count as int) == skip_nul_strings(
                        s,
                        self.pos as int,
                        header.file_count as int - k as int,
                    ),
                decreases header.file_count - k,
            {
                match self.read_nul_string() {
                    Ok(_) => {},
                    Err(e) => {
                        return Err(e);
                    },
                };
                k = k + 1;
            }
        }
        let ghost end = self.pos as int;

        // Finalize: the model owns a fresh, independent handle onto the
        // same underlying bytes for later random-access extraction.
        let data = slice_to_vec(self.data.as_slice());
        proof {
            assert(parse_v104(s, p0) == Ok::<SpecArchive, BsaError>(
                SpecArchive {
                    header,
                    records,
                    names: gnames,
                    folders: folders@,
                    files: files@,
                    body_end,
                    end,
                },
            ));
        }
        Ok(BSAArchive { header, files, folders, data })
    }
}

} // verus!
