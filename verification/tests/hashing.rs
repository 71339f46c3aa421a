//! Tests of the rolling hash, the path hash and the hash-indexed map.

use bsa_parser::hash::path_hash_bytes;
use bsa_parser::{path_hash, rolling_hash, BSAFolder, BSAHashMap};

#[test]
fn rolling_hash_empty_is_zero() {
    assert_eq!(rolling_hash(""), 0);
}

#[test]
fn rolling_hash_exact_values() {
    // 97 * 0x1003F + 98, then one more round for the third byte.
    assert_eq!(rolling_hash("ab"), 6363201);
    assert_eq!(rolling_hash("abc"), 0x3025f862);
}

#[test]
fn rolling_hash_is_deterministic() {
    assert_eq!(rolling_hash("meshes"), rolling_hash("meshes"));
}

#[test]
fn rolling_hash_is_order_sensitive() {
    assert_ne!(rolling_hash("ab"), rolling_hash("ba"));
    assert_ne!(rolling_hash("abc"), rolling_hash("cba"));
}

#[test]
fn path_hash_empty_is_zero() {
    assert_eq!(path_hash("", ""), 0);
}

#[test]
fn path_hash_folder_name_value() {
    // Low word: 's', 'e', length 6, 'm'; high word: rolling hash of "eshe".
    assert_eq!(path_hash("meshes", ""), 0x322f3a9a6d066573);
}

#[test]
fn path_hash_nif_extension_scramble() {
    // ".nif" has extension code 1; the second transform rewrites bytes 0,
    // 1 and 3 of the low word and keeps the length byte.
    assert_eq!(path_hash("x", ".nif"), 0x92cd45fd78018078);
}

#[test]
fn path_hash_unrecognized_extension_skips_scramble() {
    // ".txt" is not one of the four recognized extensions: the extension's
    // rolling hash is added into the high bits and the low word is kept.
    assert_eq!(path_hash("x", ".txt"), 0x95d0a6c278010078);
}

#[test]
fn path_hash_bytes_matches_str() {
    assert_eq!(path_hash_bytes(b"meshes", b""), path_hash("meshes", ""));
    assert_eq!(path_hash_bytes(b"x", b".nif"), path_hash("x", ".nif"));
}

#[test]
fn hash_map_insert_and_lookup() {
    let mut m: BSAHashMap<BSAFolder> = BSAHashMap::new();
    assert_eq!(m.len(), 0);
    m.insert(path_hash("meshes", ""), BSAFolder { count: 3, offset: 77 });
    assert_eq!(m.len(), 1);
    let f = m.get("meshes").expect("folder should be found by name");
    assert_eq!(f.count, 3);
    assert_eq!(f.offset, 77);
    assert!(m.get("textures").is_none());
    let g = m
        .get_hash(path_hash("meshes", ""))
        .expect("folder should be found by raw hash");
    assert_eq!(g.count, 3);
    assert!(m.get_hash(1).is_none());
}

#[test]
fn hash_map_collision_overwrites() {
    let mut m: BSAHashMap<BSAFolder> = BSAHashMap::new();
    m.insert(5, BSAFolder { count: 1, offset: 1 });
    m.insert(5, BSAFolder { count: 2, offset: 2 });
    assert_eq!(m.len(), 1);
    assert_eq!(m.get_hash(5).unwrap().count, 2);
}
