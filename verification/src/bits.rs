//! Facts about bit fields of bytes and words, proved by bit-blasting.
use vstd::prelude::*;

verus! {

/// Bounds of the register fields the hardware extracts from a byte.
pub proof fn lemma_byte_fields(v: u8)
    by (bit_vector)
    ensures
        v & 0x3F <= 0x3F,
        v & 0x1F <= 0x1F,
        v & 0x0F <= 0x0F,
        v & 0x07 <= 7,
        v & 0x03 <= 3,
        v & 0x7F <= 0x7F,
        v & 0x01 <= 1,
        (v >> 6) & 0x03 <= 3,
        (v >> 5) & 0x03 <= 3,
        (v >> 4) & 0x07 <= 7,
        v >> 4 <= 15,
        v & 0x07 == v % 8,
{
}

/// A word built from a high and a low byte.
pub proof fn lemma_join_bytes(hi: u8, lo: u8)
    by (bit_vector)
    ensures
        (((hi as u16) << 8) | (lo as u16)) as int == hi as int * 256 + lo as int,
        ((lo as u16) | ((hi as u16) << 8)) as int == hi as int * 256 + lo as int,
{
}

/// The high and low bytes of a word.
pub proof fn lemma_split_word(v: u16)
    by (bit_vector)
    ensures
        ((v >> 8) as u8) as int == v as int / 256,
        (v as u8) as int == v as int % 256,
{
}

/// A right shift never grows a value.
pub proof fn lemma_shr_le(s: u16, k: u8)
    by (bit_vector)
    ensures
        s >> k <= s,
{
}

/// A right shift never grows a byte.
pub proof fn lemma_shr_le_u8(s: u8, k: u8)
    by (bit_vector)
    ensures
        s >> k <= s,
{
}

/// Low-bit masks as remainders.
pub proof fn lemma_low_bits(x: usize)
    by (bit_vector)
    ensures
        x & 7 == x % 8,
        x & 31 == x % 32,
        (x & 1 == 0) == (x % 2 == 0),
        x & 0x1FF < 0x200,
{
}

/// The low byte of a word, two ways.
pub proof fn lemma_word_low(v: u16)
    by (bit_vector)
    ensures
        (v & 0xFF) as u8 == v as u8,
{
}

/// A VRAM DMA destination lies in 0x8000-0x9FF0.
pub proof fn lemma_dma_dest_bits(d: u16)
    by (bit_vector)
    ensures
        0x8000 <= 0x8000 | (d & 0x1FF0) <= 0x9FF0,
{
}

} // verus!
