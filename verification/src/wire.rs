//! From 32-bit words to the bytes that are copied into device memory.

use vstd::prelude::*;

verus! {

/// Byte `k` of a word, counted from the least significant one.
pub open spec fn byte_of(word: u32, k: int) -> u8 {
    if k == 0 {
        (word % 0x100) as u8
    } else if k == 1 {
        (word / 0x100 % 0x100) as u8
    } else if k == 2 {
        (word / 0x1_0000 % 0x100) as u8
    } else {
        (word / 0x100_0000) as u8
    }
}

/// The words one after the other, each with its least significant byte
/// first.
pub open spec fn little_endian(words: Seq<u32>) -> Seq<u8> {
    Seq::new(4 * words.len(), |i: int| byte_of(words[i / 4], i % 4))
}

/// The words one after the other, each with its most significant byte
/// first.
pub open spec fn big_endian(words: Seq<u32>) -> Seq<u8> {
    Seq::new(4 * words.len(), |i: int| byte_of(words[i / 4], 3 - i % 4))
}

/// `bytes` is how a machine holds `words` in memory: four bytes a word, in
/// the order of the words, and every word in the byte order of the machine,
/// which is one of the two.
pub open spec fn in_memory(bytes: Seq<u8>, words: Seq<u32>) -> bool {
    bytes == little_endian(words) || bytes == big_endian(words)
}

/// Calls `bytemuck::cast_slice`, which views the memory of a slice of words
/// as a slice of bytes, and copies that view. Nothing is reordered and
/// nothing is left out; a cast from `u32` to `u8` cannot fail, since bytes
/// need no alignment and four of them fill a word.
#[verifier::external_body]
pub(crate) fn native_bytes(words: &Vec<u32>) -> (bytes: Vec<u8>)
    ensures
        in_memory(bytes@, words@),
{
    bytemuck::cast_slice::<u32, u8>(words.as_slice()).to_vec()
}

} // verus!
