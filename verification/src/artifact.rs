//! The constraint-system artifact's container format.
//!
//! The artifact is a sectioned binary file: a magic header, a section
//! table, and among the sections a header with the circuit's counts, the
//! constraints, and a wire-to-label map. Before any of it is handed to
//! the cryptographic reader, this module checks from the bytes alone
//! everything the reader takes for granted: the three sections are
//! present and lie inside the file, the header has the fixed field
//! width, the wire count is positive and small enough for the reader's
//! own arithmetic and allocations, every constraint coefficient is a
//! canonical field encoding, and every constraint's wire index lies
//! below the declared wire count — so the reader, and the circuit
//! synthesis after it, is only ever handed input it works through
//! without fault.

use vstd::prelude::*;

use crate::witness::{chunk_below, chunk_below_modulus, le32, le32_at, le64, le64_at};

verus! {

/// Records one section-table entry: the last occurrence of each of the
/// three section types wins, as it does in the reader.
pub open spec fn table_update(
    t: int,
    body: int,
    sz: int,
    acc: (int, int, int, int, int, int),
) -> (int, int, int, int, int, int) {
    let (hoff, hsz, coff, csz, moff, msz) = acc;
    if t == 1 {
        (body, sz, coff, csz, moff, msz)
    } else if t == 2 {
        (hoff, hsz, body, sz, moff, msz)
    } else if t == 3 {
        (hoff, hsz, coff, csz, body, sz)
    } else {
        acc
    }
}

/// Walks `n` section-table entries from `pos`: each entry and its body
/// must lie fully inside the file; the header, constraint and map
/// section positions are collected, `-1` while absent.
pub open spec fn scan_table(
    s: Seq<u8>,
    pos: int,
    n: int,
    acc: (int, int, int, int, int, int),
) -> Option<(int, int, int, int, int, int)>
    decreases n,
{
    if n <= 0 {
        Some(acc)
    } else if pos + 12 <= s.len() && pos + 12 + le64(s, pos + 4) <= s.len() {
        scan_table(
            s,
            pos + 12 + le64(s, pos + 4),
            n - 1,
            table_update(le32(s, pos), pos + 12, le64(s, pos + 4), acc),
        )
    } else {
        None
    }
}

/// Walks `k` linear-combination entries from `pos`: each is a wire
/// index below `wires` and a canonical 32-byte coefficient.
pub open spec fn lc_walk(s: Seq<u8>, pos: int, k: int, wires: int) -> Option<int>
    decreases k,
{
    if k <= 0 {
        Some(pos)
    } else if pos + 36 <= s.len() && le32(s, pos) < wires && chunk_below_modulus(s, pos + 4) {
        lc_walk(s, pos + 36, k - 1, wires)
    } else {
        None
    }
}

/// Walks `n` length-prefixed linear combinations from `pos`.
pub open spec fn vecs_walk(s: Seq<u8>, pos: int, n: int, wires: int) -> Option<int>
    decreases n,
{
    if n <= 0 {
        Some(pos)
    } else if pos + 4 <= s.len() {
        match lc_walk(s, pos + 4, le32(s, pos), wires) {
            None => None,
            Some(end) => vecs_walk(s, end, n - 1, wires),
        }
    } else {
        None
    }
}

/// A well-formed constraint-system artifact container: everything the
/// reader takes for granted holds of the bytes. The size caps keep the
/// reader's eager allocations and 32-bit arithmetic in range.
pub open spec fn container_wf(s: Seq<u8>) -> bool {
    &&& s.len() >= 12
    &&& s.len() < 0x10000000
    &&& s[0] == 114 && s[1] == 49 && s[2] == 99 && s[3] == 115
    &&& le32(s, 4) == 1
    &&& match scan_table(s, 12, le32(s, 8), (-1, -1, -1, -1, -1, -1)) {
        None => false,
        Some((hoff, hsz, coff, csz, moff, msz)) => {
            &&& hoff >= 0 && coff >= 0 && moff >= 0
            &&& hsz == 64
            &&& le32(s, hoff) == 32
            &&& 0 < le32(s, hoff + 36) < 0x4000000
            &&& msz == 8 * le32(s, hoff + 36)
            &&& le32(s, hoff + 60) < 0x1000000
            &&& vecs_walk(s, coff, 3 * le32(s, hoff + 60), le32(s, hoff + 36)) is Some
        },
    }
}

/// The collected table state of the executable walk, as the spec's
/// accumulator.
pub open spec fn acc_of(
    have_h: bool,
    hoff: int,
    hsz: int,
    have_c: bool,
    coff: int,
    csz: int,
    have_m: bool,
    moff: int,
    msz: int,
) -> (int, int, int, int, int, int) {
    (
        if have_h {
            hoff
        } else {
            -1
        },
        if have_h {
            hsz
        } else {
            -1
        },
        if have_c {
            coff
        } else {
            -1
        },
        if have_c {
            csz
        } else {
            -1
        },
        if have_m {
            moff
        } else {
            -1
        },
        if have_m {
            msz
        } else {
            -1
        },
    )
}

/// Checks an artifact's container from the bytes alone.
#[verifier::loop_isolation(false)]
pub fn artifact_container_wf(b: &Vec<u8>) -> (r: bool)
    ensures
        r == container_wf(b@),
{
    let len: usize = b.len();
    if len < 12 || len >= 0x10000000 {
        return false;
    }
    if !(b[0] == 114 && b[1] == 49 && b[2] == 99 && b[3] == 115) {
        return false;
    }
    if le32_at(b, 4) != 1 {
        return false;
    }
    let sections = le32_at(b, 8);
    let ghost table = scan_table(b@, 12, sections as int, (-1, -1, -1, -1, -1, -1));
    let mut pos: usize = 12;
    let mut left: u32 = sections;
    let mut hoff: usize = 0;
    let mut hsz: u64 = 0;
    let mut coff: usize = 0;
    let mut csz: u64 = 0;
    let mut moff: usize = 0;
    let mut msz: u64 = 0;
    let mut have_h: bool = false;
    let mut have_c: bool = false;
    let mut have_m: bool = false;
    while left > 0
        invariant
            len == b@.len(),
            len < 0x10000000,
            12 <= pos <= len,
            have_h ==> hoff as int + hsz as int <= len,
            have_c ==> coff as int + csz as int <= len,
            have_m ==> moff as int + msz as int <= len,
            table == scan_table(
                b@,
                pos as int,
                left as int,
                acc_of(
                    have_h,
                    hoff as int,
                    hsz as int,
                    have_c,
                    coff as int,
                    csz as int,
                    have_m,
                    moff as int,
                    msz as int,
                ),
            ),
        decreases left,
    {
        if len - pos < 12 {
            assert(table is None);
            assert(!container_wf(b@));
            return false;
        }
        let t = le32_at(b, pos);
        let sz = le64_at(b, pos + 4);
        let body = pos + 12;
        if sz > (len - body) as u64 {
            assert(table is None);
            assert(!container_wf(b@));
            return false;
        }
        proof {
            assert(scan_table(
                b@,
                pos as int,
                left as int,
                acc_of(
                    have_h,
                    hoff as int,
                    hsz as int,
                    have_c,
                    coff as int,
                    csz as int,
                    have_m,
                    moff as int,
                    msz as int,
                ),
            ) == scan_table(
                b@,
                body as int + sz as int,
                left as int - 1,
                table_update(
                    t as int,
                    body as int,
                    sz as int,
                    acc_of(
                        have_h,
                        hoff as int,
                        hsz as int,
                        have_c,
                        coff as int,
                        csz as int,
                        have_m,
                        moff as int,
                        msz as int,
                    ),
                ),
            ));
        }
        if t == 1 {
            hoff = body;
            hsz = sz;
            have_h = true;
        } else if t == 2 {
            coff = body;
            csz = sz;
            have_c = true;
        } else if t == 3 {
            moff = body;
            msz = sz;
            have_m = true;
        }
        pos = body + sz as usize;
        left = left - 1;
    }
    if !(have_h && have_c && have_m) {
        return false;
    }
    if hsz != 64 {
        return false;
    }
    if le32_at(b, hoff) != 32 {
        return false;
    }
    let wires = le32_at(b, hoff + 36);
    if wires == 0 || wires >= 0x4000000 {
        return false;
    }
    if msz != 8u64 * (wires as u64) {
        return false;
    }
    let ncons = le32_at(b, hoff + 60);
    if ncons >= 0x1000000 {
        return false;
    }
    let total_vecs: u32 = 3 * ncons;
    let ghost walk0 = vecs_walk(b@, coff as int, total_vecs as int, wires as int);
    assert(container_wf(b@) == (walk0 is Some));
    let mut cpos: usize = coff;
    let mut vleft: u32 = total_vecs;
    while vleft > 0
        invariant
            len == b@.len(),
            cpos <= len,
            walk0 == vecs_walk(b@, cpos as int, vleft as int, wires as int),
        decreases vleft,
    {
        if len - cpos < 4 {
            assert(walk0 is None);
            return false;
        }

        let nv = le32_at(b, cpos);
        let ghost lc0 = lc_walk(b@, cpos as int + 4, nv as int, wires as int);
        let mut epos: usize = cpos + 4;
        let mut eleft: u32 = nv;
        while eleft > 0
            invariant
                len == b@.len(),
                epos <= len,
                lc0 == lc_walk(b@, epos as int, eleft as int, wires as int),
            decreases eleft,
        {
            if len - epos < 36 {
                assert(lc0 is None);
                return false;
            }
            if le32_at(b, epos) >= wires {
                assert(lc0 is None);
                return false;
            }
            if !chunk_below(b, epos + 4) {
                assert(lc0 is None);
                return false;
            }
            epos = epos + 36;
            eleft = eleft - 1;
        }
        proof {
            assert(lc0 == Some(epos as int));
            assert(vecs_walk(b@, cpos as int, vleft as int, wires as int) == vecs_walk(
                b@,
                epos as int,
                vleft as int - 1,
                wires as int,
            ));
        }
        cpos = epos;
        vleft = vleft - 1;
    }
    proof {
        assert(walk0 == Some(cpos as int));
        assert(container_wf(b@));
    }
    true
}

} // verus!
