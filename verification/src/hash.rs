//! The archive's proprietary 64-bit path hash and the 32-bit rolling hash it
//! is built from.  Folders and files are indexed on disk by these values, so
//! the functions here must match the game engine's hash bit for bit, or
//! every lookup against a real archive would fail.

use vstd::arithmetic::div_mod::{
    lemma_add_mod_noop, lemma_mod_sub_multiples_vanish, lemma_multiply_divide_lt, lemma_small_mod,
};
use vstd::prelude::*;
use vstd::string::StringSliceAdditionalSpecFns;

verus! {

/// Multiplier of the 32-bit rolling hash.
pub const HASH_MULTIPLIER: u32 = 0x1003F;

/// Rolling hash over a byte string: the accumulator starts at 0 and each
/// byte `b` takes `acc` to `acc * 0x1003F + b`, with 32-bit wraparound.
/// The empty string hashes to 0.
pub open spec fn spec_rolling_hash(s: Seq<u8>) -> u32
    decreases s.len(),
{
    if s.len() == 0 {
        0u32
    } else {
        (((spec_rolling_hash(s.drop_last()) as int) * (HASH_MULTIPLIER as int) + s.last() as int)
            % 0x1_0000_0000int) as u32
    }
}

/// Code of the four extensions that trigger the path hash's second
/// transform: `.nif`, `.kf`, `.dds` and `.wav` (in ASCII bytes).
/// Every other extension has code 0 and is left untransformed.
pub open spec fn spec_ext_code(ext: Seq<u8>) -> u8 {
    if ext.len() == 4 && ext[0] == 0x2eu8 && ext[1] == 0x6eu8 && ext[2] == 0x69u8 && ext[3]
        == 0x66u8 {
        1u8
    } else if ext.len() == 3 && ext[0] == 0x2eu8 && ext[1] == 0x6bu8 && ext[2] == 0x66u8 {
        2u8
    } else if ext.len() == 4 && ext[0] == 0x2eu8 && ext[1] == 0x64u8 && ext[2] == 0x64u8 && ext[3]
        == 0x73u8 {
        3u8
    } else if ext.len() == 4 && ext[0] == 0x2eu8 && ext[1] == 0x77u8 && ext[2] == 0x61u8 && ext[3]
        == 0x76u8 {
        4u8
    } else {
        0u8
    }
}

/// First stage of the path hash: a little-endian 32-bit seed built from the
/// last byte, the second-to-last byte (or 0), the length (one byte) and the
/// first byte of the name; for names longer than three bytes the rolling
/// hash of the interior (without the first byte and the last two) is added
/// into the high 32 bits.  An empty name hashes to 0.
pub open spec fn spec_path_hash_base(name: Seq<u8>) -> u64 {
    if name.len() == 0 {
        0u64
    } else {
        let b0 = name.last() as int;
        let b1 = if name.len() >= 2 {
            name[name.len() - 2] as int
        } else {
            0int
        };
        let b2 = (name.len() % 0x100) as int;
        let b3 = name[0] as int;
        let seed = b0 + b1 * 0x100 + b2 * 0x1_0000 + b3 * 0x100_0000;
        if name.len() > 3 {
            (seed + (spec_rolling_hash(name.subrange(1, name.len() - 2)) as int)
                * 0x1_0000_0000) as u64
        } else {
            seed as u64
        }
    }
}

/// Second transform applied for the four recognized extensions: bytes 0, 1
/// and 3 of the low 32-bit word are replaced by combinations of themselves
/// with the extension code, each truncated to one byte; byte 2 (the length
/// byte) and the high 32 bits are kept.
pub open spec fn spec_scramble(h: u64, code: u8) -> u64 {
    let x0 = (h as int / 0x100_0000) % 0x100;
    let x1 = h as int % 0x100;
    let x2 = (h as int / 0x100) % 0x100;
    let a = (((code & 0xfc) as int) * 0x20 + x0) % 0x100;
    let b = (((code & 0xfe) as int) * 0x40 + x1) % 0x100;
    let c = ((code as int) * 0x80 + x2) % 0x100;
    let kept = (h as int / 0x1_0000_0000) * 0x1_0000_0000 + ((h as int / 0x1_0000) % 0x100)
        * 0x1_0000;
    (kept + a * 0x100_0000 + b + c * 0x100) as u64
}

/// The archive's 64-bit path hash of a name and an (optionally empty)
/// extension, both as byte strings.  The extension's rolling hash is added
/// into the high 32 bits (with 64-bit wraparound), and the four recognized
/// extensions then scramble the low word.
pub open spec fn spec_path_hash(name: Seq<u8>, ext: Seq<u8>) -> u64 {
    let base = spec_path_hash_base(name);
    if ext.len() == 0 {
        base
    } else {
        let summed = ((base + (spec_rolling_hash(ext) as int) * 0x1_0000_0000)
            % 0x1_0000_0000_0000_0000int) as u64;
        let code = spec_ext_code(ext);
        if code == 0 {
            summed
        } else {
            spec_scramble(summed, code)
        }
    }
}

/// One step of the rolling hash, performed with wrapping operations,
/// equals the specification's single 32-bit reduction.
proof fn lemma_rolling_step(h: u32, b: u8)
    ensures
        vstd::wrapping::u32_specs::wrapping_add(
            vstd::wrapping::u32_specs::wrapping_mul(h, HASH_MULTIPLIER),
            b as u32,
        ) as int == ((h as int) * (HASH_MULTIPLIER as int) + b as int) % 0x1_0000_0000int,
{
    let m = 0x1_0000_0000int;
    let prod = (h as int) * (HASH_MULTIPLIER as int);
    let hm = vstd::wrapping::u32_specs::wrapping_mul(h, HASH_MULTIPLIER);
    assert(hm as int == prod % m);
    lemma_small_mod(b as nat, m as nat);
    lemma_add_mod_noop(prod, b as int, m);
    if hm + b > u32::MAX {
        lemma_mod_sub_multiples_vanish(hm as int + b as int, m);
        lemma_small_mod((hm as int + b as int - m) as nat, m as nat);
    } else {
        lemma_small_mod((hm + b) as nat, m as nat);
    }
}

/// Rolling hash of the bytes of `s` from index `start` (inclusive) to
/// `end` (exclusive).
pub fn rolling_hash_range(s: &[u8], start: usize, end: usize) -> (h: u32)
    requires
        start <= end <= s@.len(),
    ensures
        h == spec_rolling_hash(s@.subrange(start as int, end as int)),
{
    let mut h: u32 = 0;
    let mut i: usize = start;
    proof {
        assert(s@.subrange(start as int, start as int) =~= Seq::<u8>::empty());
    }
    while i < end
        invariant
            start <= i <= end <= s@.len(),
            h == spec_rolling_hash(s@.subrange(start as int, i as int)),
        decreases end - i,
    {
        let b = s[i];
        let hn = h.wrapping_mul(HASH_MULTIPLIER).wrapping_add(b as u32);
        proof {
            lemma_rolling_step(h, b);
            assert(s@.subrange(start as int, i + 1).drop_last() =~= s@.subrange(
                start as int,
                i as int,
            ));
            assert(s@.subrange(start as int, i + 1).last() == s@[i as int]);
        }
        h = hn;
        i = i + 1;
    }
    h
}

/// Rolling hash of a whole byte slice.
pub fn rolling_hash_bytes(s: &[u8]) -> (h: u32)
    ensures
        h == spec_rolling_hash(s@),
{
    let n = s.len();
    let h = rolling_hash_range(s, 0, n);
    proof {
        assert(s@.subrange(0, s@.len() as int) =~= s@);
    }
    h
}

/// Rolling hash of the bytes of a string.
pub fn rolling_hash(s: &str) -> (h: u32)
    ensures
        h == spec_rolling_hash(s.spec_bytes()),
{
    rolling_hash_bytes(s.as_bytes())
}

/// Extension code of a byte slice (see [`spec_ext_code`]).
fn ext_code(ext: &[u8]) -> (code: u8)
    ensures
        code == spec_ext_code(ext@),
{
    if ext.len() == 4 && ext[0] == 0x2e && ext[1] == 0x6e && ext[2] == 0x69 && ext[3] == 0x66 {
        1
    } else if ext.len() == 3 && ext[0] == 0x2e && ext[1] == 0x6b && ext[2] == 0x66 {
        2
    } else if ext.len() == 4 && ext[0] == 0x2e && ext[1] == 0x64 && ext[2] == 0x64 && ext[3]
        == 0x73 {
        3
    } else if ext.len() == 4 && ext[0] == 0x2e && ext[1] == 0x77 && ext[2] == 0x61 && ext[3]
        == 0x76 {
        4
    } else {
        0
    }
}

/// Extension scramble (see [`spec_scramble`]).
fn scramble(h: u64, code: u8) -> (r: u64)
    ensures
        r == spec_scramble(h, code),
{
    proof {
        lemma_multiply_divide_lt(h as int, 0x1_0000_0000int, 0x1_0000_0000int);
    }
    let x0 = (h / 0x100_0000) % 0x100;
    let x1 = h % 0x100;
    let x2 = (h / 0x100) % 0x100;
    let a = (((code & 0xfc) as u64) * 0x20 + x0) % 0x100;
    let b = (((code & 0xfe) as u64) * 0x40 + x1) % 0x100;
    let c = ((code as u64) * 0x80 + x2) % 0x100;
    let kept = (h / 0x1_0000_0000) * 0x1_0000_0000 + ((h / 0x1_0000) % 0x100) * 0x1_0000;
    kept + a * 0x100_0000 + b + c * 0x100
}

/// Path hash of a name and an extension given as byte slices.
pub fn path_hash_bytes(name: &[u8], ext: &[u8]) -> (h: u64)
    ensures
        h == spec_path_hash(name@, ext@),
{
    let mut h: u64 = 0;
    if name.len() > 0 {
        let b0 = name[name.len() - 1] as u64;
        let b1 = if name.len() >= 2 {
            name[name.len() - 2] as u64
        } else {
            0u64
        };
        let b2 = (name.len() % 0x100) as u64;
        let b3 = name[0] as u64;
        h = b0 + b1 * 0x100 + b2 * 0x1_0000 + b3 * 0x100_0000;
        if name.len() > 3 {
            let mid = rolling_hash_range(name, 1, name.len() - 2);
            h = h + (mid as u64) * 0x1_0000_0000;
        }
    }
    assert(h == spec_path_hash_base(name@));
    if ext.len() > 0 {
        let e = rolling_hash_bytes(ext);
        let shifted = (e as u64) * 0x1_0000_0000;
        let summed = h.wrapping_add(shifted);
        proof {
            let m = 0x1_0000_0000_0000_0000int;
            if h + shifted > u64::MAX {
                lemma_mod_sub_multiples_vanish(h as int + shifted as int, m);
                lemma_small_mod((h as int + shifted as int - m) as nat, m as nat);
            } else {
                lemma_small_mod((h + shifted) as nat, m as nat);
            }
        }
        let code = ext_code(ext);
        if code != 0 {
            h = scramble(summed, code);
        } else {
            h = summed;
        }
    }
    h
}

/// Path hash of a name and an extension given as strings; the hash is
/// computed over their bytes.
pub fn path_hash(name: &str, ext: &str) -> (h: u64)
    ensures
        h == spec_path_hash(name.spec_bytes(), ext.spec_bytes()),
{
    path_hash_bytes(name.as_bytes(), ext.as_bytes())
}

/// Path hash of a bare name with no extension, as the archive stores
/// folder names.
pub fn name_hash(name: &[u8]) -> (h: u64)
    ensures
        h == spec_path_hash(name@, Seq::<u8>::empty()),
{
    let ext: Vec<u8> = Vec::new();
    path_hash_bytes(name, ext.as_slice())
}

} // verus!
