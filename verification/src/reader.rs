//! The primitive field reader: bounds-checked little-endian integer reads
//! and exact-length byte-slice extraction over an immutable byte buffer and
//! a current offset.
//!
//! Each read returns the value together with the advanced offset, or `None`
//! when fewer bytes remain than the read requires.  The spec functions
//! `le16_at`, `le32_at` and `le64_at` give the mathematical value of a
//! little-endian field, and every reader's contract is stated over them.

use vstd::prelude::*;

verus! {

/// The value of the 2-byte little-endian integer at `off`.
pub open spec fn le16_at(s: Seq<u8>, off: int) -> int {
    s[off] + 0x100 * s[off + 1]
}

/// The value of the 4-byte little-endian integer at `off`.
pub open spec fn le32_at(s: Seq<u8>, off: int) -> int {
    le16_at(s, off) + 0x1_0000 * le16_at(s, off + 2)
}

/// The value of the 8-byte little-endian integer at `off`.
pub open spec fn le64_at(s: Seq<u8>, off: int) -> int {
    le32_at(s, off) + 0x1_0000_0000 * le32_at(s, off + 4)
}

/// Reads one byte at `pos`.
pub fn read_u8(s: &[u8], pos: usize) -> (r: Option<(u8, usize)>)
    ensures
        match r {
            Some((v, p)) => pos + 1 <= s@.len() && v == s@[pos as int] && p == pos + 1,
            None => pos + 1 > s@.len(),
        },
{
    if pos < s.len() {
        Some((*vstd::slice::slice_index_get(s, pos), pos + 1))
    } else {
        None
    }
}

/// Reads the 2-byte little-endian integer at `pos`.
pub fn read_u16(s: &[u8], pos: usize) -> (r: Option<(u16, usize)>)
    ensures
        match r {
            Some((v, p)) => pos + 2 <= s@.len() && v == le16_at(s@, pos as int) && p == pos + 2,
            None => pos + 2 > s@.len(),
        },
{
    if pos <= s.len() && s.len() - pos >= 2 {
        let b0 = *vstd::slice::slice_index_get(s, pos);
        let b1 = *vstd::slice::slice_index_get(s, pos + 1);
        Some(((b0 as u16) + 0x100 * (b1 as u16), pos + 2))
    } else {
        None
    }
}

/// Reads the 4-byte little-endian integer at `pos`.
pub fn read_u32(s: &[u8], pos: usize) -> (r: Option<(u32, usize)>)
    ensures
        match r {
            Some((v, p)) => pos + 4 <= s@.len() && v == le32_at(s@, pos as int) && p == pos + 4,
            None => pos + 4 > s@.len(),
        },
{
    match read_u16(s, pos) {
        Some((lo, p1)) => match read_u16(s, p1) {
            Some((hi, p2)) => Some(((lo as u32) + 0x1_0000 * (hi as u32), p2)),
            None => None,
        },
        None => None,
    }
}

/// Reads the 8-byte little-endian integer at `pos`.
pub fn read_u64(s: &[u8], pos: usize) -> (r: Option<(u64, usize)>)
    ensures
        match r {
            Some((v, p)) => pos + 8 <= s@.len() && v == le64_at(s@, pos as int) && p == pos + 8,
            None => pos + 8 > s@.len(),
        },
{
    match read_u32(s, pos) {
        Some((lo, p1)) => match read_u32(s, p1) {
            Some((hi, p2)) => Some(((lo as u64) + 0x1_0000_0000 * (hi as u64), p2)),
            None => None,
        },
        None => None,
    }
}

/// Copies the `n` bytes starting at `pos` into an owned vector.
pub fn read_bytes(s: &[u8], pos: usize, n: usize) -> (r: Option<(Vec<u8>, usize)>)
    ensures
        match r {
            Some((v, p)) => pos + n <= s@.len() && v@ == s@.subrange(pos as int, pos + n)
                && p == pos + n,
            None => pos + n > s@.len(),
        },
{
    if pos <= s.len() && s.len() - pos >= n {
        let mut v: Vec<u8> = Vec::new();
        assert(v@ =~= s@.subrange(pos as int, pos as int));
        let slen = s.len();
        let mut i: usize = 0;
        while i < n
            invariant
                i <= n,
                slen == s@.len(),
                pos + n <= slen,
                v@ == s@.subrange(pos as int, pos + i),
            decreases n - i,
        {
            v.push(*vstd::slice::slice_index_get(s, pos + i));
            assert(v@ =~= s@.subrange(pos as int, pos + i + 1));
            i = i + 1;
        }
        Some((v, pos + n))
    } else {
        None
    }
}

} // verus!
