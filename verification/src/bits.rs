//! Facts about the bit operations that MIDI bytes are taken apart with.
use vstd::prelude::*;

verus! {

/// Masking with `0x0F` leaves the low half of a byte.
pub proof fn lemma_low_nibble(b: u8)
    ensures
        b & 0x0F == b % 16,
        b & 0x0F < 16,
{
    assert(b & 0x0F == b % 16) by (bit_vector);
}

/// Masking with `0xF0` leaves the high half of a byte in place.
pub proof fn lemma_high_nibble(b: u8)
    ensures
        b & 0xF0 == b - b % 16,
        b & 0xF0 == 16 * (b / 16),
{
    assert(b & 0xF0 == b - b % 16) by (bit_vector);
}

/// Masking with `0x7F` leaves the seven data bits of a byte.
pub proof fn lemma_low7(b: u8)
    ensures
        b & 0x7F == b % 128,
        b & 0x7F < 128,
{
    assert(b & 0x7F == b % 128) by (bit_vector);
}

/// A status byte is its kind plus its channel.
pub proof fn lemma_status(kind: u8, channel: u8)
    requires
        kind % 16 == 0,
        channel < 16,
    ensures
        kind | channel == kind + channel,
{
    assert(kind % 16 == 0 && channel < 16 ==> kind | channel == kind + channel) by (bit_vector);
}

/// Masking with `0x7F` on a signed value is the remainder of a division by 128.
pub proof fn lemma_low7_signed(v: i32)
    ensures
        v & 0x7F == v as int % 128,
        0 <= v & 0x7F < 128,
{
    assert(v & 0x7F == v % 128 && 0 <= v & 0x7F < 128) by (bit_vector);
}

/// Masking with `0x7F` on a wide value is the remainder of a division by 128.
pub proof fn lemma_low7_wide(v: u32)
    ensures
        v & 0x7F == v % 128,
        v & 0x7F < 128,
{
    assert(v & 0x7F == v % 128) by (bit_vector);
}

/// The two data bytes of a fourteen-bit value.
pub proof fn lemma_bend_bytes(v: u16)
    requires
        v <= 16383,
    ensures
        v & 0x7F == v % 128,
        v & 0x7F < 128,
        (v >> 7) & 0x7F == v / 128,
        (v >> 7) & 0x7F < 128,
{
    assert(v <= 16383 ==> v & 0x7F == v % 128 && (v >> 7) & 0x7F == v / 128 && (v >> 7) & 0x7F
        < 128) by (bit_vector);
}

/// Four bytes side by side in a word, the first one on top.
pub open spec fn word_of(b3: u8, b2: u8, b1: u8, b0: u8) -> u32 {
    (b3 * 0x100_0000 + b2 * 0x1_0000 + b1 * 0x100 + b0) as u32
}

/// Shifting bytes into place and joining them makes a word.
pub proof fn lemma_word_of(b3: u8, b2: u8, b1: u8, b0: u8)
    ensures
        (b3 as u32) << 24 | (b2 as u32) << 16 | (b1 as u32) << 8 | (b0 as u32) == word_of(
            b3,
            b2,
            b1,
            b0,
        ),
{
    assert((b3 as u32) << 24 | (b2 as u32) << 16 | (b1 as u32) << 8 | (b0 as u32) == (b3
        * 0x100_0000 + b2 * 0x1_0000 + b1 * 0x100 + b0) as u32) by (bit_vector);
}

/// Byte `j` of a word, counted from the top.
pub open spec fn byte_at(w: u32, j: int) -> u8 {
    if j == 0 {
        (w / 0x100_0000) as u8
    } else if j == 1 {
        (w / 0x1_0000 % 256) as u8
    } else if j == 2 {
        (w / 0x100 % 256) as u8
    } else {
        (w % 256) as u8
    }
}

/// Shifting a word down and masking takes a byte out of it.
pub proof fn lemma_byte_at(w: u32)
    ensures
        (w >> 24) & 0xFF == byte_at(w, 0),
        (w >> 16) & 0xFF == byte_at(w, 1),
        (w >> 8) & 0xFF == byte_at(w, 2),
        (w >> 0) & 0xFF == byte_at(w, 3),
        (w >> 28) & 0x0F == byte_at(w, 0) / 16,
        (w >> 20) & 0x0F == byte_at(w, 1) / 16,
        (w >> 16) & 0x0F == byte_at(w, 1) % 16,
        (w >> 8) & 0x7F == byte_at(w, 2) % 128,
        w & 0x7F == byte_at(w, 3) % 128,
        (w >> 16) & 0xFFFF == w / 0x1_0000,
{
    assert((w >> 24) & 0xFF == w / 0x100_0000) by (bit_vector);
    assert((w >> 16) & 0xFF == w / 0x1_0000 % 256) by (bit_vector);
    assert((w >> 8) & 0xFF == w / 0x100 % 256) by (bit_vector);
    assert((w >> 0) & 0xFF == w % 256) by (bit_vector);
    assert((w >> 28) & 0x0F == w / 0x100_0000 / 16) by (bit_vector);
    assert((w >> 20) & 0x0F == w / 0x1_0000 % 256 / 16) by (bit_vector);
    assert((w >> 16) & 0x0F == w / 0x1_0000 % 256 % 16) by (bit_vector);
    assert((w >> 8) & 0x7F == w / 0x100 % 256 % 128) by (bit_vector);
    assert(w & 0x7F == w % 256 % 128) by (bit_vector);
    assert((w >> 16) & 0xFFFF == w / 0x1_0000) by (bit_vector);
}

/// The bytes of a word are the ones that it was made of.
pub proof fn lemma_bytes_of_word(b3: u8, b2: u8, b1: u8, b0: u8)
    ensures
        byte_at(word_of(b3, b2, b1, b0), 0) == b3,
        byte_at(word_of(b3, b2, b1, b0), 1) == b2,
        byte_at(word_of(b3, b2, b1, b0), 2) == b1,
        byte_at(word_of(b3, b2, b1, b0), 3) == b0,
{
}

} // verus!
