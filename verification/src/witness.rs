//! The witness file format.
//!
//! The external witness program emits a full variable assignment as a
//! binary file: a fixed header and one little-endian 32-byte field
//! element per variable. Before any of it is handed to the cryptographic
//! loader, this module checks the whole layout from the bytes alone —
//! the header's shape, the declared length, and that every element is a
//! canonical encoding below the scalar field's modulus — so that the
//! loader is only ever called on input it accepts without fault.

use vstd::prelude::*;

verus! {

/// The little-endian 32-bit value at `off`.
pub open spec fn le32(s: Seq<u8>, off: int) -> int {
    s[off] + 256 * s[off + 1] + 65536 * s[off + 2] + 16777216 * s[off + 3]
}

/// The little-endian 64-bit value at `off`.
pub open spec fn le64(s: Seq<u8>, off: int) -> int {
    le32(s, off) + 4294967296 * le32(s, off + 4)
}

/// Byte `i` of the scalar field's modulus, little-endian.
pub open spec fn modulus_byte(i: int) -> u8 {
    if i == 0 {
        1
    } else if i == 1 {
        0
    } else if i == 2 {
        0
    } else if i == 3 {
        0
    } else if i == 4 {
        33
    } else if i == 5 {
        235
    } else if i == 6 {
        70
    } else if i == 7 {
        140
    } else if i == 8 {
        221
    } else if i == 9 {
        168
    } else if i == 10 {
        148
    } else if i == 11 {
        9
    } else if i == 12 {
        252
    } else if i == 13 {
        152
    } else if i == 14 {
        70
    } else if i == 15 {
        34
    } else if i == 16 {
        0
    } else if i == 17 {
        0
    } else if i == 18 {
        0
    } else if i == 19 {
        0
    } else if i == 20 {
        0
    } else if i == 21 {
        0
    } else if i == 22 {
        0
    } else if i == 23 {
        0
    } else if i == 24 {
        0
    } else if i == 25 {
        0
    } else if i == 26 {
        0
    } else if i == 27 {
        0
    } else if i == 28 {
        0
    } else if i == 29 {
        0
    } else if i == 30 {
        0
    } else {
        64
    }
}

/// Byte `i` of the scalar field's modulus, executable form.
fn modulus_byte_at(i: usize) -> (r: u8)
    requires
        i < 32,
    ensures
        r == modulus_byte(i as int),
{
    if i == 0 {
        1
    } else if i == 1 {
        0
    } else if i == 2 {
        0
    } else if i == 3 {
        0
    } else if i == 4 {
        33
    } else if i == 5 {
        235
    } else if i == 6 {
        70
    } else if i == 7 {
        140
    } else if i == 8 {
        221
    } else if i == 9 {
        168
    } else if i == 10 {
        148
    } else if i == 11 {
        9
    } else if i == 12 {
        252
    } else if i == 13 {
        152
    } else if i == 14 {
        70
    } else if i == 15 {
        34
    } else if i == 16 {
        0
    } else if i == 17 {
        0
    } else if i == 18 {
        0
    } else if i == 19 {
        0
    } else if i == 20 {
        0
    } else if i == 21 {
        0
    } else if i == 22 {
        0
    } else if i == 23 {
        0
    } else if i == 24 {
        0
    } else if i == 25 {
        0
    } else if i == 26 {
        0
    } else if i == 27 {
        0
    } else if i == 28 {
        0
    } else if i == 29 {
        0
    } else if i == 30 {
        0
    } else {
        64
    }
}

/// The 32 bytes at `off`, read little-endian, are below the modulus,
/// judged from byte `i` downward.
pub open spec fn chunk_below_modulus_upto(s: Seq<u8>, off: int, i: int) -> bool
    decreases i + 1,
{
    if i < 0 {
        false
    } else if s[off + i] < modulus_byte(i) {
        true
    } else if s[off + i] > modulus_byte(i) {
        false
    } else {
        chunk_below_modulus_upto(s, off, i - 1)
    }
}

/// The 32 bytes at `off` are a canonical field encoding: their
/// little-endian value lies below the modulus.
pub open spec fn chunk_below_modulus(s: Seq<u8>, off: int) -> bool {
    chunk_below_modulus_upto(s, off, 31)
}

pub(crate) fn le32_at(b: &Vec<u8>, off: usize) -> (r: u32)
    requires
        off + 4 <= b@.len(),
    ensures
        r as int == le32(b@, off as int),
{
    let n: usize = b.len();
    (b[off] as u32) + (b[off + 1] as u32) * 256 + (b[off + 2] as u32) * 65536 + (b[off + 3]
        as u32) * 16777216
}

pub(crate) fn le64_at(b: &Vec<u8>, off: usize) -> (r: u64)
    requires
        off + 8 <= b@.len(),
    ensures
        r as int == le64(b@, off as int),
{
    let n: usize = b.len();
    (le32_at(b, off) as u64) + (le32_at(b, off + 4) as u64) * 4294967296
}

pub(crate) fn chunk_below(b: &Vec<u8>, off: usize) -> (r: bool)
    requires
        off + 32 <= b@.len(),
    ensures
        r == chunk_below_modulus(b@, off as int),
{
    let n: usize = b.len();
    let mut i: usize = 32;
    loop
        invariant
            0 <= i <= 32,
            n == b@.len(),
            off + 32 <= b@.len(),
            chunk_below_modulus(b@, off as int) == chunk_below_modulus_upto(
                b@,
                off as int,
                i as int - 1,
            ),
        decreases i,
    {
        if i == 0 {
            return false;
        }
        let j = i - 1;
        let byte = b[off + j];
        let qb = modulus_byte_at(j);
        if byte < qb {
            return true;
        }
        if byte > qb {
            return false;
        }
        i = j;
    }
}

/// Element `k` of the witness file is a canonical field encoding.
pub open spec fn element_canonical(s: Seq<u8>, k: int) -> bool {
    chunk_below_modulus(s, 76 + 32 * k)
}

/// A well-formed witness file for `expected` variables: the magic
/// header, a version the loader takes, the two sections with their
/// exact sizes, the declared length, and every field element canonical.
pub open spec fn wtns_wf(s: Seq<u8>, expected: int) -> bool {
    &&& expected >= 0
    &&& s.len() == 76 + 32 * expected
    &&& s[0] == 119 && s[1] == 116 && s[2] == 110 && s[3] == 115
    &&& le32(s, 4) <= 2
    &&& le32(s, 8) == 2
    &&& le32(s, 12) == 1
    &&& le64(s, 16) == 40
    &&& le32(s, 24) == 32
    &&& le32(s, 60) == expected
    &&& le32(s, 64) == 2
    &&& le64(s, 68) == 32 * expected
    &&& forall|k: int| 0 <= k < expected ==> #[trigger] element_canonical(s, k)
}

/// Checks a witness file's shape and contents from the bytes alone.
pub fn witness_well_formed(b: &Vec<u8>, expected: usize) -> (r: bool)
    requires
        expected < 0x4000000,
    ensures
        r == wtns_wf(b@, expected as int),
{
    if b.len() != 76 + 32 * expected {
        return false;
    }
    if !(b[0] == 119 && b[1] == 116 && b[2] == 110 && b[3] == 115) {
        return false;
    }
    if le32_at(b, 4) > 2 {
        return false;
    }
    if le32_at(b, 8) != 2 {
        return false;
    }
    if le32_at(b, 12) != 1 {
        return false;
    }
    if le64_at(b, 16) != 40 {
        return false;
    }
    if le32_at(b, 24) != 32 {
        return false;
    }
    if le32_at(b, 60) != expected as u32 {
        return false;
    }
    if le32_at(b, 64) != 2 {
        return false;
    }
    if le64_at(b, 68) != 32 * (expected as u64) {
        return false;
    }
    let mut k: usize = 0;
    while k < expected
        invariant
            0 <= k <= expected,
            expected < 0x4000000,
            b@.len() == 76 + 32 * expected,
            forall|j: int| 0 <= j < k ==> #[trigger] element_canonical(b@, j),
        decreases expected - k,
    {
        if !chunk_below(b, 76 + 32 * k) {
            assert(!element_canonical(b@, k as int));
            return false;
        }
        assert(element_canonical(b@, k as int));
        k = k + 1;
    }
    true
}

} // verus!
