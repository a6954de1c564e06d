use vstd::prelude::*;

verus! {

/// Opcode family: the top four bits of an instruction word.
pub open spec fn op_family(w: u16) -> u16 {
    w & 0xF000u16
}

/// Register operand `x`: bits 8 to 11.
pub open spec fn op_x(w: u16) -> u16 {
    (w >> 8u16) & 0xFu16
}

/// Register operand `y`: bits 4 to 7.
pub open spec fn op_y(w: u16) -> u16 {
    (w >> 4u16) & 0xFu16
}

/// Nibble operand `n`: the low four bits.
pub open spec fn op_n(w: u16) -> u16 {
    w & 0xFu16
}

/// Byte operand `nn`: the low eight bits.
pub open spec fn op_nn(w: u16) -> u16 {
    w & 0xFFu16
}

/// Address operand `nnn`: the low twelve bits.
pub open spec fn op_nnn(w: u16) -> u16 {
    w & 0xFFFu16
}

/// The instruction word stored big-endian at `addr` and `addr + 1`.
pub open spec fn word_at(ram: Seq<u8>, addr: int) -> u16 {
    (ram[addr] as int * 256 + ram[addr + 1] as int) as u16
}

/// The fields of an instruction word.
#[derive(Clone, Copy, Debug, PartialEq, Eq, Structural)]
pub struct Decoded {
    pub code: u16,
    pub x: usize,
    pub y: usize,
    pub n: u16,
    pub nn: u16,
    pub nnn: u16,
}

/// The operand ranges that every instruction word has.
pub proof fn lemma_operand_bounds(w: u16)
    ensures
        op_x(w) < 16,
        op_y(w) < 16,
        op_n(w) < 16,
        op_nn(w) < 256,
        op_nnn(w) < 4096,
{
    assert((w >> 8u16) & 0xFu16 < 16) by (bit_vector);
    assert((w >> 4u16) & 0xFu16 < 16) by (bit_vector);
    assert(w & 0xFu16 < 16) by (bit_vector);
    assert(w & 0xFFu16 < 256) by (bit_vector);
    assert(w & 0xFFFu16 < 4096) by (bit_vector);
}

/// Every instruction word falls in one of the sixteen opcode families.
pub proof fn lemma_family_cases(w: u16)
    ensures
        op_family(w) == 0x0000 || op_family(w) == 0x1000 || op_family(w) == 0x2000
            || op_family(w) == 0x3000 || op_family(w) == 0x4000 || op_family(w) == 0x5000
            || op_family(w) == 0x6000 || op_family(w) == 0x7000 || op_family(w) == 0x8000
            || op_family(w) == 0x9000 || op_family(w) == 0xA000 || op_family(w) == 0xB000
            || op_family(w) == 0xC000 || op_family(w) == 0xD000 || op_family(w) == 0xE000
            || op_family(w) == 0xF000,
{
    assert(w & 0xF000u16 == 0x0000u16 || w & 0xF000u16 == 0x1000u16 || w & 0xF000u16 == 0x2000u16
        || w & 0xF000u16 == 0x3000u16 || w & 0xF000u16 == 0x4000u16 || w & 0xF000u16 == 0x5000u16
        || w & 0xF000u16 == 0x6000u16 || w & 0xF000u16 == 0x7000u16 || w & 0xF000u16 == 0x8000u16
        || w & 0xF000u16 == 0x9000u16 || w & 0xF000u16 == 0xA000u16 || w & 0xF000u16 == 0xB000u16
        || w & 0xF000u16 == 0xC000u16 || w & 0xF000u16 == 0xD000u16 || w & 0xF000u16 == 0xE000u16
        || w & 0xF000u16 == 0xF000u16) by (bit_vector);
}

/// Splits an instruction word into its family and operand fields.
pub fn decode(instr: u16) -> (d: Decoded)
    ensures
        d.code == op_family(instr),
        d.x == op_x(instr),
        d.y == op_y(instr),
        d.n == op_n(instr),
        d.nn == op_nn(instr),
        d.nnn == op_nnn(instr),
        d.x < 16 && d.y < 16 && d.n < 16 && d.nn < 256 && d.nnn < 4096,
{
    proof {
        lemma_operand_bounds(instr);
    }
    Decoded {
        code: instr & 0xF000,
        x: ((instr >> 8) & 0x0F) as usize,
        y: ((instr >> 4) & 0x0F) as usize,
        n: instr & 0x000F,
        nn: instr & 0x00FF,
        nnn: instr & 0x0FFF,
    }
}

} // verus!
