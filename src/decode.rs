use vstd::prelude::*;

verus! {

/// The fields of a 16-bit instruction word.
#[derive(Clone, Copy, Debug, PartialEq, Eq, Structural)]
pub struct Decoded {
    /// Highest nibble: the instruction family.
    pub family: u8,
    /// Second nibble: the first register index.
    pub x: u8,
    /// Third nibble: the second register index.
    pub y: u8,
    /// Lowest nibble.
    pub n: u8,
    /// Lowest byte.
    pub kk: u8,
    /// Lowest twelve bits: an address.
    pub nnn: u16,
}

pub open spec fn op_family(op: u16) -> int {
    op as int / 4096
}

pub open spec fn op_x(op: u16) -> int {
    (op as int / 256) % 16
}

pub open spec fn op_y(op: u16) -> int {
    (op as int / 16) % 16
}

pub open spec fn op_n(op: u16) -> int {
    op as int % 16
}

pub open spec fn op_kk(op: u16) -> int {
    op_y(op) * 16 + op_n(op)
}

pub open spec fn op_nnn(op: u16) -> int {
    op_x(op) * 256 + op_y(op) * 16 + op_n(op)
}

/// Splits an instruction word into its nibbles and the operands built from them.
pub fn decode(opcode: u16) -> (d: Decoded)
    ensures
        d.family == op_family(opcode),
        d.x == op_x(opcode),
        d.y == op_y(opcode),
        d.n == op_n(opcode),
        d.kk == op_kk(opcode),
        d.nnn == op_nnn(opcode),
{
    let family = (opcode / 4096) as u8;
    let x = ((opcode / 256) % 16) as u8;
    let y = ((opcode / 16) % 16) as u8;
    let n = (opcode % 16) as u8;
    let kk = y * 16 + n;
    let nnn = x as u16 * 256 + y as u16 * 16 + n as u16;
    Decoded { family, x, y, n, kk, nnn }
}

} // verus!
