//! Arithmetic on the machine words of the traced process.
//!
//! The trace facility moves whole words at word-aligned addresses. A single
//! byte is changed by reading the word around it, replacing the byte inside
//! the word, and writing the word back. This module holds the address
//! arithmetic and the replacement itself; a word is viewed as its eight
//! bytes, lowest address first.

use vstd::prelude::*;

verus! {

/// Number of bytes in one machine word of the traced process.
pub const WORD_SIZE: usize = 8;

/// The one-byte instruction that stops the traced process when executed.
pub const TRAP_OPCODE: u8 = 0xcc;

/// The address of the machine word that contains `addr`.
pub open spec fn word_base(addr: usize) -> usize {
    (addr - addr % 8) as usize
}

/// The position, within its word, of the byte at `addr`.
pub open spec fn byte_index(addr: usize) -> int {
    addr as int % 8
}

/// Byte `k` of `word`; byte 0 is the least significant one, which lies at
/// the lowest address.
pub open spec fn byte_of(word: u64, k: int) -> u8 {
    ((word >> ((8 * k) as u64)) & 0xff) as u8
}

/// The eight bytes of `word`, lowest address first.
pub open spec fn bytes_of(word: u64) -> Seq<u8> {
    Seq::new(8, |k: int| byte_of(word, k))
}

/// The word made of the eight bytes `bytes`, lowest address first.
pub open spec fn word_of(bytes: Seq<u8>) -> u64
    recommends
        bytes.len() == 8,
{
    (bytes[0] as u64) | (bytes[1] as u64) << 8 | (bytes[2] as u64) << 16 | (bytes[3] as u64) << 24
        | (bytes[4] as u64) << 32 | (bytes[5] as u64) << 40 | (bytes[6] as u64) << 48 | (
    bytes[7] as u64) << 56
}

/// `word` with byte `k` replaced by `val` and every other byte kept.
pub open spec fn with_byte(word: u64, k: int, val: u8) -> u64
    recommends
        0 <= k < 8,
{
    word_of(bytes_of(word).update(k, val))
}

/// A word is the word made of its own bytes.
pub proof fn lemma_word_of_bytes(word: u64)
    ensures
        word_of(bytes_of(word)) == word,
{
    assert(word == ((word & 0xff) as u8 as u64) | (((word >> 8) & 0xff) as u8 as u64) << 8 | (((word
        >> 16) & 0xff) as u8 as u64) << 16 | (((word >> 24) & 0xff) as u8 as u64) << 24 | (((word
        >> 32) & 0xff) as u8 as u64) << 32 | (((word >> 40) & 0xff) as u8 as u64) << 40 | (((word
        >> 48) & 0xff) as u8 as u64) << 48 | (((word >> 56) & 0xff) as u8 as u64) << 56)
        by (bit_vector);
    assert(word >> 0 == word) by (bit_vector);
}

/// The bytes of the word made of eight bytes are those bytes.
pub proof fn lemma_bytes_of_word(bytes: Seq<u8>)
    requires
        bytes.len() == 8,
    ensures
        bytes_of(word_of(bytes)) == bytes,
{
    let b0 = bytes[0];
    let b1 = bytes[1];
    let b2 = bytes[2];
    let b3 = bytes[3];
    let b4 = bytes[4];
    let b5 = bytes[5];
    let b6 = bytes[6];
    let b7 = bytes[7];
    let w = word_of(bytes);
    assert({
        let w = (b0 as u64) | (b1 as u64) << 8 | (b2 as u64) << 16 | (b3 as u64) << 24 | (b4 as u64)
            << 32 | (b5 as u64) << 40 | (b6 as u64) << 48 | (b7 as u64) << 56;
        &&& ((w >> 0) & 0xff) as u8 == b0
        &&& ((w >> 8) & 0xff) as u8 == b1
        &&& ((w >> 16) & 0xff) as u8 == b2
        &&& ((w >> 24) & 0xff) as u8 == b3
        &&& ((w >> 32) & 0xff) as u8 == b4
        &&& ((w >> 40) & 0xff) as u8 == b5
        &&& ((w >> 48) & 0xff) as u8 == b6
        &&& ((w >> 56) & 0xff) as u8 == b7
    }) by (bit_vector);
    assert forall|k: int| 0 <= k < 8 implies byte_of(w, k) == bytes[k] by {
        if k == 0 {
        } else if k == 1 {
        } else if k == 2 {
        } else if k == 3 {
        } else if k == 4 {
        } else if k == 5 {
        } else if k == 6 {
        } else {
        }
    }
    assert(bytes_of(w) =~= bytes);
}

/// Two words with the same bytes are the same word.
pub proof fn lemma_bytes_determine_word(a: u64, b: u64)
    requires
        bytes_of(a) == bytes_of(b),
    ensures
        a == b,
{
    lemma_word_of_bytes(a);
    lemma_word_of_bytes(b);
}

/// Replacing one byte of a word changes that byte and no other: byte `k` of
/// the result is `val`, and every other byte is what it was in `word`.
pub proof fn lemma_with_byte(word: u64, k: int, val: u8)
    requires
        0 <= k < 8,
    ensures
        bytes_of(with_byte(word, k, val)) == bytes_of(word).update(k, val),
        byte_of(with_byte(word, k, val), k) == val,
        forall|j: int| 0 <= j < 8 && j != k ==> byte_of(with_byte(word, k, val), j) == byte_of(word, j),
{
    let replaced = bytes_of(word).update(k, val);
    lemma_bytes_of_word(replaced);
    assert(bytes_of(with_byte(word, k, val))[k] == val);
    assert forall|j: int| 0 <= j < 8 && j != k implies byte_of(with_byte(word, k, val), j)
        == byte_of(word, j) by {
        assert(bytes_of(with_byte(word, k, val))[j] == bytes_of(word)[j]);
    }
}

/// Putting back the byte that a word already has at `k` gives the word itself.
pub proof fn lemma_with_byte_same(word: u64, k: int)
    requires
        0 <= k < 8,
    ensures
        with_byte(word, k, byte_of(word, k)) == word,
{
    assert(bytes_of(word).update(k, byte_of(word, k)) =~= bytes_of(word));
    lemma_word_of_bytes(word);
}

/// A later replacement of byte `k` overrides an earlier one.
pub proof fn lemma_with_byte_twice(word: u64, k: int, first: u8, second: u8)
    requires
        0 <= k < 8,
    ensures
        with_byte(with_byte(word, k, first), k, second) == with_byte(word, k, second),
{
    lemma_with_byte(word, k, first);
    assert(bytes_of(word).update(k, first).update(k, second) =~= bytes_of(word).update(k, second));
}

/// Rounds `addr` down to the start of the machine word that contains it.
pub fn align_addr_to_word(addr: usize) -> (base: usize)
    ensures
        base == word_base(addr),
        base % 8 == 0,
        base <= addr < base + 8,
{
    addr - addr % WORD_SIZE
}

/// The position, within its word, of the byte at `addr`.
pub fn byte_offset(addr: usize) -> (k: usize)
    ensures
        k == byte_index(addr),
        k < 8,
        word_base(addr) + k == addr,
{
    addr % WORD_SIZE
}

/// Reads byte `k` of `word`.
pub fn extract_byte(word: u64, k: usize) -> (byte: u8)
    requires
        k < 8,
    ensures
        byte == byte_of(word, k as int),
{
    let shift: u64 = 8 * (k as u64);
    ((word >> shift) & 0xff) as u8
}

/// Replaces byte `k` of `word` by `val`, keeping the seven other bytes.
pub fn replace_byte(word: u64, k: usize, val: u8) -> (patched: u64)
    requires
        k < 8,
    ensures
        patched == with_byte(word, k as int, val),
        bytes_of(patched) == bytes_of(word).update(k as int, val),
{
    let shift: u64 = 8 * (k as u64);
    let cleared: u64 = word & !(0xffu64 << shift);
    let patched: u64 = cleared | ((val as u64) << shift);
    proof {
        let bytes = bytes_of(word).update(k as int, val);
        lemma_mask_and_set(word, shift, val);
        assert forall|j: int| 0 <= j < 8 implies byte_of(patched, j) == bytes[j] by {
            let at: u64 = (8 * j) as u64;
            assert(at % 8 == 0 && at < 64);
        }
        assert(bytes_of(patched) =~= bytes);
        lemma_word_of_bytes(patched);
    }
    patched
}

/// Clearing eight bits at a byte boundary and setting them anew leaves the
/// bits of every other byte as they were.
proof fn lemma_mask_and_set(word: u64, shift: u64, val: u8)
    requires
        shift < 64,
        shift % 8 == 0,
    ensures
        forall|at: u64|
            at < 64 && at % 8 == 0 ==> #[trigger] ((((word & !(0xffu64 << shift)) | ((val as u64)
                << shift)) >> at) & 0xff) as u8 == (if at == shift {
                val
            } else {
                ((word >> at) & 0xff) as u8
            }),
{
    assert forall|at: u64| at < 64 && at % 8 == 0 implies #[trigger] ((((word & !(0xffu64 << shift))
        | ((val as u64) << shift)) >> at) & 0xff) as u8 == if at == shift {
        val
    } else {
        ((word >> at) & 0xff) as u8
    } by {
        assert(shift < 64 && shift % 8 == 0 && at < 64 && at % 8 == 0 ==> ((((word & !(0xffu64
            << shift)) | ((val as u64) << shift)) >> at) & 0xff) as u8 == if at == shift {
            val
        } else {
            ((word >> at) & 0xff) as u8
        }) by (bit_vector);
    }
}

} // verus!
