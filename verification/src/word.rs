//! Machine-word arithmetic for byte-granular memory patching.
//!
//! A traced process's memory is read and written one machine word at a
//! time.  To change a single byte (install or remove a trap opcode) the
//! controller aligns the address down to a word boundary, replaces one
//! byte of the word, and writes the whole word back.  The functions here
//! are the pure arithmetic of that read-modify-write.

use vstd::prelude::*;

verus! {

/// Number of bytes in a machine word of the traced target.
pub const WORD_SIZE: usize = 8;

/// The byte of `w` at byte offset `i` (offset 0 is the least significant).
pub open spec fn word_byte(w: u64, i: u64) -> u8 {
    ((w >> ((8 * i) as u64)) & 0xff) as u8
}

/// `w` with the byte at offset `i` replaced by `v`, all other bytes kept.
pub open spec fn spec_replace_byte(w: u64, i: u64, v: u8) -> u64 {
    (w & !(0xffu64 << ((8 * i) as u64))) | ((v as u64) << ((8 * i) as u64))
}

proof fn lemma_replace_byte_bits(w: u64, i: u64, v: u8)
    by (bit_vector)
    requires
        i < 8,
    ensures
        word_byte(spec_replace_byte(w, i, v), i) == v,
        forall|j: u64| j < 8 && j != i ==> word_byte(spec_replace_byte(w, i, v), j) == word_byte(w, j),
{
}

/// Writing one byte into a word and then reading the word back shows the
/// new value at exactly that byte offset and leaves every other byte of
/// the word unchanged.
pub proof fn lemma_write_byte_read_word(w: u64, i: u64, v: u8)
    requires
        i < 8,
    ensures
        word_byte(spec_replace_byte(w, i, v), i) == v,
        forall|j: u64| j < 8 && j != i ==> word_byte(spec_replace_byte(w, i, v), j) == word_byte(w, j),
{
    lemma_replace_byte_bits(w, i, v);
}

/// Aligns an address down to the start of the machine word containing it.
pub fn align_addr_to_word(addr: usize) -> (r: usize)
    ensures
        r == (addr & !7usize),
        r <= addr,
        addr - r < 8,
        r % 8 == 0,
{
    proof {
        assert((addr & !7usize) <= addr && addr - (addr & !7usize) < 8 && (addr & !7usize) % 8
            == 0) by (bit_vector);
    }
    addr & !7usize
}

/// The byte of `word` at offset `offset`, as the target would read it.
pub fn extract_byte(word: u64, offset: usize) -> (r: u8)
    requires
        offset < 8,
    ensures
        r == word_byte(word, offset as u64),
{
    ((word >> (8 * offset as u64)) & 0xff) as u8
}

/// `word` with its byte at `offset` replaced by `val`; every other byte
/// of the word is preserved bit-for-bit.
pub fn replace_byte_in_word(word: u64, offset: usize, val: u8) -> (r: u64)
    requires
        offset < 8,
    ensures
        r == spec_replace_byte(word, offset as u64, val),
        word_byte(r, offset as u64) == val,
        forall|j: u64| j < 8 && j != offset as u64 ==> word_byte(r, j) == word_byte(word, j),
{
    proof {
        lemma_replace_byte_bits(word, offset as u64, val);
    }
    let shift: u64 = 8 * (offset as u64);
    (word & !(0xffu64 << shift)) | ((val as u64) << shift)
}

} // verus!
