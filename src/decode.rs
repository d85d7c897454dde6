use vstd::prelude::*;

verus! {

/// The fields of a 16-bit instruction word.
#[derive(Clone, Copy, Debug, PartialEq, Eq, Structural)]
pub struct Instruction {
    /// Bits 15..12: the instruction family.
    pub op: u8,
    /// Bits 11..8: the first register index.
    pub x: u8,
    /// Bits 7..4: the second register index.
    pub y: u8,
    /// Bits 3..0: a 4-bit immediate.
    pub n: u8,
    /// Bits 7..0: an 8-bit immediate.
    pub byte: u8,
    /// Bits 11..0: a 12-bit immediate address.
    pub addr: u16,
}

/// The fields of `word`, written as arithmetic on its value.
#[verifier::opaque]
pub open spec fn decoded(word: u16) -> Instruction {
    Instruction {
        op: (word as int / 0x1000) as u8,
        x: (word as int / 0x100 % 0x10) as u8,
        y: (word as int / 0x10 % 0x10) as u8,
        n: (word as int % 0x10) as u8,
        byte: (word as int % 0x100) as u8,
        addr: (word as int % 0x1000) as u16,
    }
}

/// The fields of every word lie in their ranges and put the word back together:
/// word = op·0x1000 + x·0x100 + y·0x10 + n, with byte = y·0x10 + n and addr = x·0x100 + byte.
pub proof fn lemma_decoded_fields(word: u16)
    ensures
        decoded(word).op < 16,
        decoded(word).x < 16,
        decoded(word).y < 16,
        decoded(word).n < 16,
        decoded(word).byte == decoded(word).y * 0x10 + decoded(word).n,
        decoded(word).addr == decoded(word).x * 0x100 + decoded(word).byte,
        word == decoded(word).op * 0x1000 + decoded(word).addr,
{
    reveal(decoded);
}

/// Splits an instruction word into its fields. Every word decodes.
pub fn decode(word: u16) -> (r: Instruction)
    ensures
        r == decoded(word),
        r.op as u16 == (word >> 12) & 0xF,
        r.x as u16 == (word >> 8) & 0xF,
        r.y as u16 == (word >> 4) & 0xF,
        r.n as u16 == word & 0xF,
        r.byte as u16 == word & 0xFF,
        r.addr == word & 0xFFF,
        r.op < 16 && r.x < 16 && r.y < 16 && r.n < 16,
        r.addr < 0x1000,
{
    proof {
        reveal(decoded);
        assert((word >> 12) & 0xF == word / 0x1000) by (bit_vector);
        assert((word >> 8) & 0xF == word / 0x100 % 0x10) by (bit_vector);
        assert((word >> 4) & 0xF == word / 0x10 % 0x10) by (bit_vector);
        assert(word & 0xF == word % 0x10) by (bit_vector);
        assert(word & 0xFF == word % 0x100) by (bit_vector);
        assert(word & 0xFFF == word % 0x1000) by (bit_vector);
    }
    Instruction {
        op: ((word >> 12) & 0xF) as u8,
        x: ((word >> 8) & 0xF) as u8,
        y: ((word >> 4) & 0xF) as u8,
        n: (word & 0xF) as u8,
        byte: (word & 0xFF) as u8,
        addr: word & 0xFFF,
    }
}

} // verus!
