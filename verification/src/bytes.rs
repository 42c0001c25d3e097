//! Little-endian numbers in byte strings.

use vstd::prelude::*;

verus! {

/// The little-endian word at `at`, if there is one.
pub open spec fn word_at(bytes: Seq<u8>, at: int) -> Option<u32> {
    if 0 <= at && at + 4 <= bytes.len() {
        Some(
            (bytes[at] + 0x100 * bytes[at + 1] + 0x1_0000 * bytes[at + 2] + 0x100_0000 * bytes[at
                + 3]) as u32,
        )
    } else {
        None
    }
}

/// The little-endian word at `offset`, if there is one.
pub fn read_u32(bytes: &[u8], offset: usize) -> (word: Option<u32>)
    ensures
        word == word_at(bytes@, offset as int),
{
    if bytes.len() < 4 || offset > bytes.len() - 4 {
        return None;
    }
    Some(
        bytes[offset] as u32 + 0x100 * bytes[offset + 1] as u32 + 0x1_0000 * bytes[offset + 2] as u32
            + 0x100_0000 * bytes[offset + 3] as u32,
    )
}

/// The little-endian 64-bit word at `at`, if there is one.
pub open spec fn long_at(bytes: Seq<u8>, at: int) -> Option<u64> {
    match (word_at(bytes, at), word_at(bytes, at + 4)) {
        (Some(low), Some(high)) => Some((low + 0x1_0000_0000 * high) as u64),
        _ => None,
    }
}

/// The little-endian 64-bit word at `offset`, if there is one.
pub fn read_u64(bytes: &[u8], offset: usize) -> (long: Option<u64>)
    ensures
        long == long_at(bytes@, offset as int),
{
    if bytes.len() < 8 || offset > bytes.len() - 8 {
        return None;
    }
    match (read_u32(bytes, offset), read_u32(bytes, offset + 4)) {
        (Some(low), Some(high)) => Some(low as u64 + 0x1_0000_0000 * high as u64),
        _ => None,
    }
}

/// The number that a word stands for in two's complement.
pub open spec fn signed(word: u32) -> i32 {
    if word < 0x8000_0000 {
        word as i32
    } else {
        (word - 0x1_0000_0000) as i32
    }
}

/// The number that a word stands for in two's complement.
pub fn to_signed(word: u32) -> (number: i32)
    ensures
        number == signed(word),
{
    if word < 0x8000_0000 {
        word as i32
    } else {
        (word as i64 - 0x1_0000_0000) as i32
    }
}

} // verus!
