use vstd::prelude::*;

verus! {

/// The fields of a 16-bit instruction word.
///
/// `high`, `x`, `y` and `n` are its four nibbles, most significant first;
/// `kk` is its low byte and `nnn` its low twelve bits.
#[derive(Debug, Clone, Copy)]
pub struct Decoded {
    pub high: u8,
    pub x: u8,
    pub y: u8,
    pub n: u8,
    pub kk: u8,
    pub nnn: u16,
}

/// The decoding of `op`, written arithmetically.
pub open spec fn decoded(op: u16) -> Decoded {
    Decoded {
        high: (op / 0x1000) as u8,
        x: ((op / 0x100) % 0x10) as u8,
        y: ((op / 0x10) % 0x10) as u8,
        n: (op % 0x10) as u8,
        kk: (op % 0x100) as u8,
        nnn: (op % 0x1000) as u16,
    }
}

/// Splits an instruction word into its nibbles and operands.
pub fn decode(opcode: u16) -> (d: Decoded)
    ensures
        d == decoded(opcode),
        d.high < 16 && d.x < 16 && d.y < 16 && d.n < 16,
        d.nnn < 0x1000,
{
    Decoded {
        high: (opcode / 0x1000) as u8,
        x: ((opcode / 0x100) % 0x10) as u8,
        y: ((opcode / 0x10) % 0x10) as u8,
        n: (opcode % 0x10) as u8,
        kk: (opcode % 0x100) as u8,
        nnn: opcode % 0x1000,
    }
}

} // verus!
