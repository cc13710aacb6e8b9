//! Instruction decoding: the pure extraction of the fields of a 16-bit
//! instruction word.

use vstd::prelude::*;

verus! {

/// The fields of one instruction word. Every word decodes; which field
/// combinations mean something is for the executor to decide.
#[derive(Clone, Copy, Debug, PartialEq, Eq, Structural)]
pub struct Decoded {
    /// Bits 15-12: the opcode nibble.
    pub opcode: u8,
    /// Bits 11-8: the register index X.
    pub x: u8,
    /// Bits 7-4: the register index Y.
    pub y: u8,
    /// Bits 3-0: the 4-bit immediate N.
    pub n: u8,
    /// The low byte: the immediate NN.
    pub nn: u8,
    /// The low 12 bits: the immediate NNN.
    pub nnn: u16,
}

/// The big-endian word made of two consecutive memory bytes.
pub open spec fn word_of(hi: u8, lo: u8) -> u16 {
    (hi * 256 + lo) as u16
}

/// The fields of `word`, written as digits of its base-16 expansion.
pub open spec fn decode_spec(word: u16) -> Decoded {
    Decoded {
        opcode: (word / 4096) as u8,
        x: (word / 256 % 16) as u8,
        y: (word / 16 % 16) as u8,
        n: (word % 16) as u8,
        nn: (word % 256) as u8,
        nnn: (word % 4096) as u16,
    }
}

/// Every field of a decoded word lies in the range its width allows.
pub proof fn lemma_decode_ranges(word: u16)
    ensures
        decode_spec(word).opcode < 16,
        decode_spec(word).x < 16,
        decode_spec(word).y < 16,
        decode_spec(word).n < 16,
        decode_spec(word).nnn < 4096,
        decode_spec(word).n == decode_spec(word).nn % 16,
        decode_spec(word).y == decode_spec(word).nn / 16,
        decode_spec(word).nn == decode_spec(word).nnn % 256,
        decode_spec(word).x == decode_spec(word).nnn / 256,
        word == decode_spec(word).opcode * 4096 + decode_spec(word).nnn,
{
}

/// Joins the byte at the program counter with the one after it.
pub fn instruction_word(hi: u8, lo: u8) -> (word: u16)
    ensures
        word == word_of(hi, lo),
{
    let h: u16 = hi as u16;
    let l: u16 = lo as u16;
    assert((h << 8) | l == h * 256 + l) by (bit_vector)
        requires
            h < 256,
            l < 256,
    ;
    (h << 8) | l
}

/// Splits an instruction word into its fields.
pub fn decode(word: u16) -> (d: Decoded)
    ensures
        d == decode_spec(word),
{
    assert(word >> 12 == word / 4096) by (bit_vector);
    assert((word >> 8) & 0x0F == word / 256 % 16) by (bit_vector);
    assert((word >> 4) & 0x0F == word / 16 % 16) by (bit_vector);
    assert(word & 0x0F == word % 16) by (bit_vector);
    assert(word & 0xFF == word % 256) by (bit_vector);
    assert(word & 0x0FFF == word % 4096) by (bit_vector);
    Decoded {
        opcode: (word >> 12) as u8,
        x: ((word >> 8) & 0x0F) as u8,
        y: ((word >> 4) & 0x0F) as u8,
        n: (word & 0x0F) as u8,
        nn: (word & 0xFF) as u8,
        nnn: word & 0x0FFF,
    }
}

} // verus!
