//! Endian-aware integer extraction from byte slices.
//!
//! The device tree blob stores every multi-byte integer in big-endian byte
//! order; a few helpers for little-endian data round the module out. All
//! readers take an explicit byte offset and are bounds-checked by contract.

use vstd::prelude::*;

verus! {

/// The big-endian `u16` formed by the two bytes of `s` starting at `off`.
pub open spec fn be_u16_at(s: Seq<u8>, off: int) -> u16 {
    (((s[off] as u16) << 8) | (s[off + 1] as u16)) as u16
}

/// The big-endian `u32` formed by the four bytes of `s` starting at `off`.
pub open spec fn be_u32_at(s: Seq<u8>, off: int) -> u32 {
    (((s[off] as u32) << 24) | ((s[off + 1] as u32) << 16) | ((s[off + 2] as u32) << 8) | (s[off
        + 3] as u32)) as u32
}

/// The big-endian `u64` formed by the eight bytes of `s` starting at `off`.
pub open spec fn be_u64_at(s: Seq<u8>, off: int) -> u64 {
    (((s[off] as u64) << 56) | ((s[off + 1] as u64) << 48) | ((s[off + 2] as u64) << 40) | ((s[off
        + 3] as u64) << 32) | ((s[off + 4] as u64) << 24) | ((s[off + 5] as u64) << 16) | ((s[off
        + 6] as u64) << 8) | (s[off + 7] as u64)) as u64
}

/// The little-endian `u16` formed by the two bytes of `s` starting at `off`.
pub open spec fn le_u16_at(s: Seq<u8>, off: int) -> u16 {
    (((s[off + 1] as u16) << 8) | (s[off] as u16)) as u16
}

/// The little-endian `u32` formed by the four bytes of `s` starting at `off`.
pub open spec fn le_u32_at(s: Seq<u8>, off: int) -> u32 {
    (((s[off + 3] as u32) << 24) | ((s[off + 2] as u32) << 16) | ((s[off + 1] as u32) << 8) | (
    s[off] as u32)) as u32
}

/// The little-endian `u64` formed by the eight bytes of `s` starting at `off`.
pub open spec fn le_u64_at(s: Seq<u8>, off: int) -> u64 {
    (((s[off + 7] as u64) << 56) | ((s[off + 6] as u64) << 48) | ((s[off + 5] as u64) << 40) | ((
    s[off + 4] as u64) << 32) | ((s[off + 3] as u64) << 24) | ((s[off + 2] as u64) << 16) | ((s[off
        + 1] as u64) << 8) | (s[off] as u64)) as u64
}

/// Reads a big-endian `u16` from `bytes` at byte offset `off`.
pub fn read_be_u16(bytes: &[u8], off: usize) -> (r: u16)
    requires
        off + 2 <= bytes@.len(),
    ensures
        r == be_u16_at(bytes@, off as int),
{
    let n = bytes.len();
    ((bytes[off] as u16) << 8) | (bytes[off + 1] as u16)
}

/// Reads a big-endian `u32` from `bytes` at byte offset `off`.
pub fn read_be_u32(bytes: &[u8], off: usize) -> (r: u32)
    requires
        off + 4 <= bytes@.len(),
    ensures
        r == be_u32_at(bytes@, off as int),
{
    let n = bytes.len();
    ((bytes[off] as u32) << 24) | ((bytes[off + 1] as u32) << 16) | ((bytes[off + 2] as u32) << 8)
        | (bytes[off + 3] as u32)
}

/// Reads a big-endian `u64` from `bytes` at byte offset `off`.
pub fn read_be_u64(bytes: &[u8], off: usize) -> (r: u64)
    requires
        off + 8 <= bytes@.len(),
    ensures
        r == be_u64_at(bytes@, off as int),
{
    let n = bytes.len();
    ((bytes[off] as u64) << 56) | ((bytes[off + 1] as u64) << 48) | ((bytes[off + 2] as u64) << 40)
        | ((bytes[off + 3] as u64) << 32) | ((bytes[off + 4] as u64) << 24) | ((bytes[off
        + 5] as u64) << 16) | ((bytes[off + 6] as u64) << 8) | (bytes[off + 7] as u64)
}

/// Reads a little-endian `u16` from `bytes` at byte offset `off`.
pub fn read_le_u16(bytes: &[u8], off: usize) -> (r: u16)
    requires
        off + 2 <= bytes@.len(),
    ensures
        r == le_u16_at(bytes@, off as int),
{
    let n = bytes.len();
    ((bytes[off + 1] as u16) << 8) | (bytes[off] as u16)
}

/// Reads a little-endian `u32` from `bytes` at byte offset `off`.
pub fn read_le_u32(bytes: &[u8], off: usize) -> (r: u32)
    requires
        off + 4 <= bytes@.len(),
    ensures
        r == le_u32_at(bytes@, off as int),
{
    let n = bytes.len();
    ((bytes[off + 3] as u32) << 24) | ((bytes[off + 2] as u32) << 16) | ((bytes[off + 1] as u32)
        << 8) | (bytes[off] as u32)
}

/// Reads a little-endian `u64` from `bytes` at byte offset `off`.
pub fn read_le_u64(bytes: &[u8], off: usize) -> (r: u64)
    requires
        off + 8 <= bytes@.len(),
    ensures
        r == le_u64_at(bytes@, off as int),
{
    let n = bytes.len();
    ((bytes[off + 7] as u64) << 56) | ((bytes[off + 6] as u64) << 48) | ((bytes[off + 5] as u64)
        << 40) | ((bytes[off + 4] as u64) << 32) | ((bytes[off + 3] as u64) << 24) | ((bytes[off
        + 2] as u64) << 16) | ((bytes[off + 1] as u64) << 8) | (bytes[off] as u64)
}

/// Rounds `n` up to the next multiple of four, as the structure block's
/// token stream requires after names and property values.
pub open spec fn align4(n: int) -> int {
    ((n + 3) / 4) * 4
}

/// Rounding up to a multiple of four never moves an offset backwards and
/// advances it by at most three bytes.
pub proof fn lemma_align4_bounds(n: int)
    requires
        0 <= n,
    ensures
        n <= align4(n) <= n + 3,
        align4(n) % 4 == 0,
{
    assert(n <= ((n + 3) / 4) * 4 <= n + 3) by (nonlinear_arith);
    assert((((n + 3) / 4) * 4) % 4 == 0) by (nonlinear_arith);
}

/// Rounds `n` up to the next multiple of four.
pub fn align4_up(n: usize) -> (r: usize)
    requires
        n + 3 <= usize::MAX,
    ensures
        r == align4(n as int),
{
    proof {
        lemma_align4_bounds(n as int);
    }
    ((n + 3) / 4) * 4
}

/// True when a zero byte terminates the string that starts at `off` in `s`.
pub open spec fn has_nul(s: Seq<u8>, off: int) -> bool {
    exists|i: int| off <= i < s.len() && s[i] == 0
}

/// Length of the zero-terminated string starting at `off` in `s`: the number
/// of bytes before the first zero byte, or the remainder of `s` if none.
pub open spec fn cstr_len(s: Seq<u8>, off: int) -> nat
    decreases s.len() - off when 0 <= off <= s.len()
{
    if off >= s.len() {
        0
    } else if s[off] == 0 {
        0
    } else {
        1 + cstr_len(s, off + 1)
    }
}

/// The bytes of the zero-terminated string starting at `off` in `s`, without
/// the terminator.
pub open spec fn cstr_at(s: Seq<u8>, off: int) -> Seq<u8> {
    s.subrange(off, off + cstr_len(s, off))
}

/// A stretch of `n` non-zero bytes followed by a zero byte pins `cstr_len` to `n`.
pub proof fn lemma_cstr_len_exact(s: Seq<u8>, off: int, n: int)
    requires
        0 <= off,
        0 <= n,
        off + n < s.len(),
        forall|k: int| off <= k < off + n ==> s[k] != 0,
        s[off + n] == 0,
    ensures
        cstr_len(s, off) == n,
    decreases n,
{
    if n == 0 {
    } else {
        lemma_cstr_len_exact(s, off + 1, n - 1);
    }
}

/// Without a zero byte ahead, the string runs to the end of `s`.
pub proof fn lemma_cstr_len_to_end(s: Seq<u8>, off: int)
    requires
        0 <= off <= s.len(),
        forall|k: int| off <= k < s.len() ==> s[k] != 0,
    ensures
        cstr_len(s, off) == s.len() - off,
    decreases s.len() - off,
{
    if off < s.len() {
        lemma_cstr_len_to_end(s, off + 1);
    }
}

/// Finds the zero byte that terminates the string starting at `start`, and
/// returns the string's length, or `None` when no terminator exists.
pub fn find_nul(bytes: &[u8], start: usize) -> (r: Option<usize>)
    requires
        start <= bytes@.len(),
    ensures
        match r {
            Some(n) => has_nul(bytes@, start as int) && n == cstr_len(bytes@, start as int) && start
                + n < bytes@.len(),
            None => !has_nul(bytes@, start as int),
        },
{
    let len = bytes.len();
    let mut i = start;
    while i < len
        invariant
            start <= i <= len,
            len == bytes@.len(),
            forall|k: int| start <= k < i ==> bytes@[k] != 0,
        decreases len - i,
    {
        if bytes[i] == 0 {
            proof {
                lemma_cstr_len_exact(bytes@, start as int, i - start);
            }
            return Some(i - start);
        }
        i = i + 1;
    }
    proof {
        assert forall|j: int| start <= j < bytes@.len() implies bytes@[j] != 0 by {}
    }
    None
}

} // verus!
