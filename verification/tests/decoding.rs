//! Tests of the string-decoding primitives and of the full version-104
//! decode sequence.

use bsa_parser::hash::path_hash_bytes;
use bsa_parser::{path_hash, BSAParser, BsaError};

fn push_u32(out: &mut Vec<u8>, v: u32) {
    out.extend_from_slice(&v.to_le_bytes());
}

fn push_u64(out: &mut Vec<u8>, v: u64) {
    out.extend_from_slice(&v.to_le_bytes());
}

fn header_bytes(version: u32, flags: u32, folder_count: u32, file_count: u32) -> Vec<u8> {
    let mut out = Vec::new();
    out.extend_from_slice(b"BSA\0");
    push_u32(&mut out, version);
    push_u32(&mut out, 36); // offset of the folder-record table
    push_u32(&mut out, flags);
    push_u32(&mut out, folder_count);
    push_u32(&mut out, file_count);
    push_u32(&mut out, 7); // total folder name length ("meshes" + prefix)
    push_u32(&mut out, 6); // total file name length ("x.nif" + nul)
    push_u32(&mut out, 1); // file flags
    out
}

/// A minimal synthetic archive: one folder "meshes" holding one file
/// "x.nif", with the flat filename list iff `flags` has bit 0x2 set.
fn minimal_archive(version: u32, flags: u32, folder_hash: u64) -> Vec<u8> {
    let mut out = header_bytes(version, flags, 1, 1);
    // Folder record.
    push_u64(&mut out, folder_hash);
    push_u32(&mut out, 1); // one file
    push_u32(&mut out, 0x50); // offset of the folder's file block
    // Folder name, length-prefixed with terminator.
    out.push(7);
    out.extend_from_slice(b"meshes\0");
    // File record.
    push_u64(&mut out, path_hash("x", ".nif"));
    push_u32(&mut out, 123); // size
    push_u32(&mut out, 456); // offset
    // Flat filename list.
    if flags & 0x2 != 0 {
        out.extend_from_slice(b"x.nif\0");
    }
    out
}

#[test]
fn bzstring_decode() {
    let mut p = BSAParser::new(vec![5, b'a', b'b', b'c', b'd', 0]);
    let s = p.read_bzstring().expect("decode should succeed");
    assert_eq!(s, b"abcd".to_vec());
    assert_eq!(p.position(), 6);
}

#[test]
fn bzstring_zero_length_is_format_error() {
    let mut p = BSAParser::new(vec![0, b'a']);
    match p.read_bzstring() {
        Err(e) => assert_eq!(e, BsaError::Format),
        Ok(_) => panic!("a zero length prefix must be rejected"),
    }
    assert_eq!(p.position(), 0);
}

#[test]
fn bzstring_truncated_is_io_error() {
    let mut p = BSAParser::new(vec![5, b'a', b'b']);
    match p.read_bzstring() {
        Err(e) => assert_eq!(e, BsaError::Io),
        Ok(_) => panic!("a truncated string must be rejected"),
    }
}

#[test]
fn bzstring_nonzero_terminator_accepted() {
    // A non-zero terminator byte is accepted silently, for compatibility
    // with malformed but common archives.
    let mut p = BSAParser::new(vec![3, b'h', b'i', b'x']);
    let s = p.read_bzstring().expect("decode should succeed");
    assert_eq!(s, b"hi".to_vec());
    assert_eq!(p.position(), 4);
}

#[test]
fn nul_string_decode_stops_after_terminator() {
    let mut p = BSAParser::new(vec![b'h', b'i', 0, b'x']);
    let s = p.read_nul_string().expect("decode should succeed");
    assert_eq!(s, b"hi".to_vec());
    assert_eq!(p.position(), 3);
}

#[test]
fn nul_string_unterminated_is_io_error() {
    let mut p = BSAParser::new(vec![b'h', b'i']);
    match p.read_nul_string() {
        Err(e) => assert_eq!(e, BsaError::Io),
        Ok(_) => panic!("an unterminated string must exhaust the input"),
    }
}

#[test]
fn minimal_archive_decodes_end_to_end() {
    let data = minimal_archive(104, 0, path_hash("meshes", ""));
    let mut p = BSAParser::new(data.clone());
    let a = match p.v104() {
        Ok(a) => a,
        Err(e) => panic!("decode failed: {:?}", e),
    };
    assert_eq!(a.header.version, 104);
    assert_eq!(a.header.folder_count, 1);
    assert_eq!(a.header.file_count, 1);
    assert_eq!(a.folders.len(), 1);
    assert_eq!(a.files.len(), 1);
    let folder = a.folders.get("meshes").expect("folder must be found by name");
    assert_eq!(folder.count, 1);
    assert_eq!(folder.offset, 0x50);
    let file = a
        .files
        .get_hash(path_hash("x", ".nif"))
        .expect("file must be found under its path hash");
    assert_eq!(file.size, 123);
    assert_eq!(file.offset, 456);
    // The archive keeps an independent handle onto the same bytes.
    assert_eq!(a.data, data);
}

#[test]
fn filename_list_read_when_flag_set() {
    let data = minimal_archive(104, 0x2, path_hash("meshes", ""));
    let len = data.len();
    let mut p = BSAParser::new(data);
    assert!(p.v104().is_ok());
    assert_eq!(p.position(), len);
}

#[test]
fn no_filename_list_read_when_flag_clear() {
    // The input ends right after the per-folder file-record block: reading
    // any trailing filename list would fail with an input error.
    let data = minimal_archive(104, 0, path_hash("meshes", ""));
    let len = data.len();
    let mut p = BSAParser::new(data);
    assert!(p.v104().is_ok());
    assert_eq!(p.position(), len);

    // Trailing bytes past the last block are left unread.
    let mut padded = minimal_archive(104, 0, path_hash("meshes", ""));
    padded.extend_from_slice(&[0xAA, 0xBB, 0xCC]);
    let mut p = BSAParser::new(padded);
    assert!(p.v104().is_ok());
    assert_eq!(p.position(), len);
}

#[test]
fn truncated_folder_table_is_io_error() {
    let data = minimal_archive(104, 0, path_hash("meshes", ""));
    let truncated = data[..40].to_vec(); // cut mid-folder-record
    let mut p = BSAParser::new(truncated);
    match p.v104() {
        Err(e) => assert_eq!(e, BsaError::Io),
        Ok(_) => panic!("a truncated table must not yield a model"),
    }
}

#[test]
fn empty_input_is_io_error() {
    let mut p = BSAParser::new(Vec::new());
    match p.v104() {
        Err(e) => assert_eq!(e, BsaError::Io),
        Ok(_) => panic!("an empty input must not yield a model"),
    }
}

#[test]
fn other_version_is_rejected_up_front() {
    let data = minimal_archive(103, 0, path_hash("meshes", ""));
    let mut p = BSAParser::new(data);
    match p.v104() {
        Err(e) => assert_eq!(e, BsaError::UnsupportedVersion),
        Ok(_) => panic!("only version 104 is supported"),
    }
}

#[test]
fn name_hash_mismatch_is_format_error() {
    // The stored folder hash belongs to another name: the positional
    // self-check must abort the decode.
    let data = minimal_archive(104, 0, path_hash("textures", ""));
    let mut p = BSAParser::new(data);
    match p.v104() {
        Err(e) => assert_eq!(e, BsaError::Format),
        Ok(_) => panic!("a name/record mismatch must abort the decode"),
    }
}

#[test]
fn invalid_name_text_is_encoding_error() {
    let mut out = header_bytes(104, 0, 1, 1);
    // Folder record whose hash matches the (invalid) name bytes.
    push_u64(&mut out, path_hash_bytes(&[0xFF, 0xFE], b""));
    push_u32(&mut out, 1);
    push_u32(&mut out, 0x50);
    // Folder name that is not valid text.
    out.push(3);
    out.extend_from_slice(&[0xFF, 0xFE, 0]);
    let mut p = BSAParser::new(out);
    match p.v104() {
        Err(e) => assert_eq!(e, BsaError::Encoding),
        Ok(_) => panic!("a name that cannot be hashed as text must be rejected"),
    }
}

#[test]
fn archive_without_folders_decodes_empty() {
    let data = header_bytes(104, 0, 0, 0);
    let mut p = BSAParser::new(data);
    let a = match p.v104() {
        Ok(a) => a,
        Err(e) => panic!("decode failed: {:?}", e),
    };
    assert_eq!(a.folders.len(), 0);
    assert_eq!(a.files.len(), 0);
    assert_eq!(p.position(), 36);
}
