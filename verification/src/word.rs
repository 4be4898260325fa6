//! Word-level arithmetic of the memory patcher: the tracing interface moves
//! whole machine words, a breakpoint changes one byte.

use vstd::prelude::*;

verus! {

/// Bytes in one machine word of the traced process.
pub const WORD_SIZE: usize = 8;

/// The one-byte trap instruction that a breakpoint puts in place of code.
pub const TRAP: u8 = 0xcc;

/// The word-aligned address at or below `addr`, as a mathematical integer.
pub open spec fn aligned(addr: int) -> int {
    addr - addr % 8
}

/// Byte `k` of `word`, counted from the least significant one, which is the
/// byte at the lowest address.
pub open spec fn byte_of(word: u64, k: usize) -> u8 {
    ((word >> ((8 * k) as u64)) & 0xff) as u8
}

/// The eight bytes of `word` in address order.
pub open spec fn bytes_of(word: u64) -> Seq<u8> {
    Seq::new(8, |k: int| byte_of(word, k as usize))
}

/// Rounds `addr` down to the start of the machine word that contains it.
pub fn align_addr_to_word(addr: usize) -> (base: usize)
    ensures
        base as int == aligned(addr as int),
        base % 8 == 0,
        base <= addr < base + 8,
{
    let mask: usize = !(WORD_SIZE - 1);
    let base: usize = addr & mask;
    assert(addr & !7usize == addr - addr % 8) by (bit_vector);
    base
}

/// The offset of `addr` within its machine word.
pub fn byte_offset(addr: usize) -> (k: usize)
    ensures
        k as int == addr as int % 8,
        k < WORD_SIZE,
        aligned(addr as int) + k == addr,
{
    addr - align_addr_to_word(addr)
}

/// Reads byte `offset` out of `word`.
pub fn byte_at(word: u64, offset: usize) -> (b: u8)
    requires
        offset < WORD_SIZE,
    ensures
        b == byte_of(word, offset),
        b == bytes_of(word)[offset as int],
{
    let shift: u64 = 8 * (offset as u64);
    ((word >> shift) & 0xff) as u8
}

/// `word` with byte `k` replaced by `val`.
pub open spec fn patch(word: u64, k: usize, val: u8) -> u64 {
    (word & !(0xffu64 << ((8 * k) as u64))) | ((val as u64) << ((8 * k) as u64))
}

/// Puts `val` at byte `offset` of `word` and keeps the seven other bytes.
pub fn with_byte(word: u64, offset: usize, val: u8) -> (patched: u64)
    requires
        offset < WORD_SIZE,
    ensures
        patched == patch(word, offset, val),
        bytes_of(patched) == bytes_of(word).update(offset as int, val),
{
    let shift: u64 = 8 * (offset as u64);
    let masked: u64 = word & !(0xffu64 << shift);
    proof {
        lemma_patch_keeps_other_bytes(word, offset, val);
    }
    masked | ((val as u64) << shift)
}

/// Byte `j` of a patched word is the new byte at the patched offset and the
/// old byte at every other offset.
pub proof fn lemma_patch_byte(word: u64, k: usize, val: u8, j: usize)
    requires
        k < 8,
        j < 8,
    ensures
        byte_of(patch(word, k, val), j) == if j == k {
            val
        } else {
            byte_of(word, j)
        },
{
    assert(byte_of(patch(word, k, val), j) == if j == k {
        val
    } else {
        byte_of(word, j)
    }) by (bit_vector)
        requires
            k < 8,
            j < 8,
    ;
}

/// Patching byte `k` of a word leaves its seven other bytes as they were:
/// the bytes of the patched word are the old bytes with position `k` updated.
pub proof fn lemma_patch_keeps_other_bytes(word: u64, k: usize, val: u8)
    requires
        k < 8,
    ensures
        bytes_of(patch(word, k, val)) == bytes_of(word).update(k as int, val),
        forall|j: usize| j < 8 && j != k ==> byte_of(patch(word, k, val), j) == byte_of(word, j),
        byte_of(patch(word, k, val), k) == val,
{
    assert forall|j: usize| j < 8 implies byte_of(patch(word, k, val), j) == if j == k {
        val
    } else {
        byte_of(word, j)
    } by {
        lemma_patch_byte(word, k, val, j);
    }
    assert forall|j: int| 0 <= j < 8 implies bytes_of(patch(word, k, val))[j] == bytes_of(
        word,
    ).update(k as int, val)[j] by {
        lemma_patch_byte(word, k, val, j as usize);
    }
}

/// A word is determined by its eight bytes.
pub proof fn lemma_bytes_determine_word(a: u64, b: u64)
    requires
        bytes_of(a) == bytes_of(b),
    ensures
        a == b,
{
    assert forall|j: usize| j < 8 implies byte_of(a, j) == byte_of(b, j) by {
        assert(bytes_of(a)[j as int] == byte_of(a, j));
        assert(bytes_of(b)[j as int] == byte_of(b, j));
    }
    assert(byte_of(a, 0) == byte_of(b, 0) && byte_of(a, 1) == byte_of(b, 1) && byte_of(a, 2)
        == byte_of(b, 2) && byte_of(a, 3) == byte_of(b, 3) && byte_of(a, 4) == byte_of(b, 4)
        && byte_of(a, 5) == byte_of(b, 5) && byte_of(a, 6) == byte_of(b, 6) && byte_of(a, 7)
        == byte_of(b, 7));
    assert(a == b) by (bit_vector)
        requires
            byte_of(a, 0) == byte_of(b, 0) && byte_of(a, 1) == byte_of(b, 1) && byte_of(a, 2)
                == byte_of(b, 2) && byte_of(a, 3) == byte_of(b, 3) && byte_of(a, 4) == byte_of(
                b,
                4,
            ) && byte_of(a, 5) == byte_of(b, 5) && byte_of(a, 6) == byte_of(b, 6) && byte_of(a, 7)
                == byte_of(b, 7),
    ;
}

/// Putting back the byte that a patch replaced gives the word that was there
/// before the patch.
pub proof fn lemma_patch_round_trip(word: u64, k: usize, val: u8)
    requires
        k < 8,
    ensures
        patch(patch(word, k, val), k, byte_of(word, k)) == word,
{
    let there = patch(word, k, val);
    let back = patch(there, k, byte_of(word, k));
    lemma_patch_keeps_other_bytes(word, k, val);
    lemma_patch_keeps_other_bytes(there, k, byte_of(word, k));
    assert(bytes_of(back) =~= bytes_of(word));
    lemma_bytes_determine_word(back, word);
}

/// Patching a byte that is already in place changes nothing.
pub proof fn lemma_patch_same_byte(word: u64, k: usize)
    requires
        k < 8,
    ensures
        patch(word, k, byte_of(word, k)) == word,
{
    lemma_patch_keeps_other_bytes(word, k, byte_of(word, k));
    assert(bytes_of(patch(word, k, byte_of(word, k))) =~= bytes_of(word));
    lemma_bytes_determine_word(patch(word, k, byte_of(word, k)), word);
}

} // verus!
