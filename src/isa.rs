//! The binary instruction format: one big-endian word per instruction,
//! `[opcode][op1][op2_hi][op2_lo]`.

use vstd::prelude::*;

verus! {

pub const OP_EOF: u8 = 0xFF;
pub const OP_MOV: u8 = 0x01;
pub const OP_STR: u8 = 0x02;
pub const OP_ADI: u8 = 0x03;
pub const OP_SUI: u8 = 0x04;
pub const OP_JMP: u8 = 0x05;
pub const OP_JZ: u8 = 0x06;
pub const OP_CMP: u8 = 0x07;
pub const OP_PRN: u8 = 0x08;
pub const OP_MUL: u8 = 0x09;
pub const OP_DIV: u8 = 0x0A;
pub const OP_MOP: u8 = 0x0B;

/// A decoded instruction: one variant per opcode, with the operands it uses.
/// Addresses are single bytes; immediates are 16-bit values.
#[derive(Clone, Copy, Debug, PartialEq, Eq, Structural)]
pub enum Instr {
    Eof,
    Mov { dst: u8, src: u8 },
    Mop { dst: u8, src: u8 },
    Str { dst: u8, imm: u16 },
    Adi { dst: u8, imm: u16 },
    Sui { dst: u8, imm: u16 },
    Jmp { target: u8 },
    Jz { target: u8 },
    Cmp { a: u8, b: u8 },
    Prn { addr: u8 },
    Mul { dst: u8, src: u8 },
    Div { dst: u8, src: u8 },
    /// An opcode byte that names no operation; executing it does nothing.
    Unknown { opcode: u8 },
}

pub open spec fn is_known_opcode(op: u8) -> bool {
    op == OP_EOF || op == OP_MOV || op == OP_MOP || op == OP_STR || op == OP_ADI || op == OP_SUI
        || op == OP_JMP || op == OP_JZ || op == OP_CMP || op == OP_PRN || op == OP_MUL
        || op == OP_DIV
}

/// An instruction that has a canonical encoding: `Unknown` only carries
/// opcode bytes that name no operation.
pub open spec fn well_formed(i: Instr) -> bool {
    match i {
        Instr::Unknown { opcode } => !is_known_opcode(opcode),
        _ => true,
    }
}

/// The word `[op][a][rest_hi][rest_lo]`.
pub open spec fn pack(op: u8, a: u8, rest: u16) -> u32 {
    ((op as u32) << 24u32) | ((a as u32) << 16u32) | (rest as u32)
}

pub open spec fn opcode_of(w: u32) -> u8 {
    (w >> 24u32) as u8
}

pub open spec fn op1_of(w: u32) -> u8 {
    (w >> 16u32) as u8
}

pub open spec fn op2_hi_of(w: u32) -> u8 {
    (w >> 8u32) as u8
}

pub open spec fn op2_lo_of(w: u32) -> u8 {
    w as u8
}

/// The 16-bit immediate formed by `op2_hi` and `op2_lo`.
pub open spec fn imm_of(w: u32) -> u16 {
    w as u16
}

/// The canonical word of an instruction; bytes an opcode ignores are zero.
pub open spec fn encode_spec(i: Instr) -> u32 {
    match i {
        Instr::Eof => pack(OP_EOF, 0, 0),
        Instr::Mov { dst, src } => pack(OP_MOV, dst, src as u16),
        Instr::Mop { dst, src } => pack(OP_MOP, dst, src as u16),
        Instr::Str { dst, imm } => pack(OP_STR, dst, imm),
        Instr::Adi { dst, imm } => pack(OP_ADI, dst, imm),
        Instr::Sui { dst, imm } => pack(OP_SUI, dst, imm),
        Instr::Jmp { target } => pack(OP_JMP, target, 0),
        Instr::Jz { target } => pack(OP_JZ, target, 0),
        Instr::Cmp { a, b } => pack(OP_CMP, a, ((b as u16) << 8u16) as u16),
        Instr::Prn { addr } => pack(OP_PRN, addr, 0),
        Instr::Mul { dst, src } => pack(OP_MUL, dst, src as u16),
        Instr::Div { dst, src } => pack(OP_DIV, dst, src as u16),
        Instr::Unknown { opcode } => pack(opcode, 0, 0),
    }
}

/// What a word means: the opcode byte selects the variant, and the variant
/// reads its operands from the bytes that its layout assigns them.
pub open spec fn decode_spec(w: u32) -> Instr {
    let op = opcode_of(w);
    let a = op1_of(w);
    if op == OP_EOF {
        Instr::Eof
    } else if op == OP_MOV {
        Instr::Mov { dst: a, src: op2_lo_of(w) }
    } else if op == OP_MOP {
        Instr::Mop { dst: a, src: op2_lo_of(w) }
    } else if op == OP_STR {
        Instr::Str { dst: a, imm: imm_of(w) }
    } else if op == OP_ADI {
        Instr::Adi { dst: a, imm: imm_of(w) }
    } else if op == OP_SUI {
        Instr::Sui { dst: a, imm: imm_of(w) }
    } else if op == OP_JMP {
        Instr::Jmp { target: a }
    } else if op == OP_JZ {
        Instr::Jz { target: a }
    } else if op == OP_CMP {
        Instr::Cmp { a, b: op2_hi_of(w) }
    } else if op == OP_PRN {
        Instr::Prn { addr: a }
    } else if op == OP_MUL {
        Instr::Mul { dst: a, src: op2_lo_of(w) }
    } else if op == OP_DIV {
        Instr::Div { dst: a, src: op2_lo_of(w) }
    } else {
        Instr::Unknown { opcode: op }
    }
}

proof fn lemma_pack_fields(op: u8, a: u8, rest: u16)
    ensures
        opcode_of(pack(op, a, rest)) == op,
        op1_of(pack(op, a, rest)) == a,
        imm_of(pack(op, a, rest)) == rest,
        op2_hi_of(pack(op, a, rest)) == (rest >> 8u16) as u8,
        op2_lo_of(pack(op, a, rest)) == rest as u8,
{
    assert((((op as u32) << 24u32) | ((a as u32) << 16u32) | (rest as u32)) >> 24u32 == op as u32)
        by (bit_vector);
    assert(((((op as u32) << 24u32) | ((a as u32) << 16u32) | (rest as u32)) >> 16u32) as u8 == a)
        by (bit_vector);
    assert((((op as u32) << 24u32) | ((a as u32) << 16u32) | (rest as u32)) as u16 == rest)
        by (bit_vector);
    assert(((((op as u32) << 24u32) | ((a as u32) << 16u32) | (rest as u32)) >> 8u32) as u8
        == (rest >> 8u16) as u8) by (bit_vector);
    assert((((op as u32) << 24u32) | ((a as u32) << 16u32) | (rest as u32)) as u8 == rest as u8)
        by (bit_vector);
}

proof fn lemma_rest_bytes(x: u8)
    ensures
        ((x as u16) >> 8u16) as u8 == 0,
        (x as u16) as u8 == x,
        ((((x as u16) << 8u16) as u16) >> 8u16) as u8 == x,
        (((x as u16) << 8u16) as u16) as u8 == 0,
        (0u16 >> 8u16) as u8 == 0,
{
    assert(((x as u16) >> 8u16) as u8 == 0) by (bit_vector);
    assert((x as u16) as u8 == x) by (bit_vector);
    assert(((((x as u16) << 8u16) as u16) >> 8u16) as u8 == x) by (bit_vector);
    assert((((x as u16) << 8u16) as u16) as u8 == 0) by (bit_vector);
    assert((0u16 >> 8u16) as u8 == 0) by (bit_vector);
}

proof fn lemma_word_split(w: u32)
    ensures
        pack(opcode_of(w), op1_of(w), imm_of(w)) == w,
{
    assert((((((w >> 24u32) as u8) as u32) << 24u32) | ((((w >> 16u32) as u8) as u32) << 16u32)
        | ((w as u16) as u32)) == w) by (bit_vector);
}

/// Decoding the canonical word of a well-formed instruction gives that
/// instruction back, and encoding the result gives the same word again.
pub proof fn lemma_encode_decode_round_trip(i: Instr)
    requires
        well_formed(i),
    ensures
        decode_spec(encode_spec(i)) == i,
        encode_spec(decode_spec(encode_spec(i))) == encode_spec(i),
{
    match i {
        Instr::Eof => lemma_pack_fields(OP_EOF, 0, 0),
        Instr::Mov { dst, src } => {
            lemma_pack_fields(OP_MOV, dst, src as u16);
            lemma_rest_bytes(src);
        },
        Instr::Mop { dst, src } => {
            lemma_pack_fields(OP_MOP, dst, src as u16);
            lemma_rest_bytes(src);
        },
        Instr::Str { dst, imm } => lemma_pack_fields(OP_STR, dst, imm),
        Instr::Adi { dst, imm } => lemma_pack_fields(OP_ADI, dst, imm),
        Instr::Sui { dst, imm } => lemma_pack_fields(OP_SUI, dst, imm),
        Instr::Jmp { target } => lemma_pack_fields(OP_JMP, target, 0),
        Instr::Jz { target } => lemma_pack_fields(OP_JZ, target, 0),
        Instr::Cmp { a, b } => {
            lemma_pack_fields(OP_CMP, a, ((b as u16) << 8u16) as u16);
            lemma_rest_bytes(b);
        },
        Instr::Prn { addr } => lemma_pack_fields(OP_PRN, addr, 0),
        Instr::Mul { dst, src } => {
            lemma_pack_fields(OP_MUL, dst, src as u16);
            lemma_rest_bytes(src);
        },
        Instr::Div { dst, src } => {
            lemma_pack_fields(OP_DIV, dst, src as u16);
            lemma_rest_bytes(src);
        },
        Instr::Unknown { opcode } => lemma_pack_fields(opcode, 0, 0),
    }
}

/// Splits a word into its instruction.
pub fn decode(w: u32) -> (r: Instr)
    ensures
        r == decode_spec(w),
{
    let op = (w >> 24u32) as u8;
    let a = (w >> 16u32) as u8;
    let hi = (w >> 8u32) as u8;
    let lo = w as u8;
    let imm = w as u16;
    if op == OP_EOF {
        Instr::Eof
    } else if op == OP_MOV {
        Instr::Mov { dst: a, src: lo }
    } else if op == OP_MOP {
        Instr::Mop { dst: a, src: lo }
    } else if op == OP_STR {
        Instr::Str { dst: a, imm }
    } else if op == OP_ADI {
        Instr::Adi { dst: a, imm }
    } else if op == OP_SUI {
        Instr::Sui { dst: a, imm }
    } else if op == OP_JMP {
        Instr::Jmp { target: a }
    } else if op == OP_JZ {
        Instr::Jz { target: a }
    } else if op == OP_CMP {
        Instr::Cmp { a, b: hi }
    } else if op == OP_PRN {
        Instr::Prn { addr: a }
    } else if op == OP_MUL {
        Instr::Mul { dst: a, src: lo }
    } else if op == OP_DIV {
        Instr::Div { dst: a, src: lo }
    } else {
        Instr::Unknown { opcode: op }
    }
}

fn pack_word(op: u8, a: u8, rest: u16) -> (r: u32)
    ensures
        r == pack(op, a, rest),
{
    ((op as u32) << 24u32) | ((a as u32) << 16u32) | (rest as u32)
}

/// The canonical word of an instruction.
pub fn encode(i: Instr) -> (r: u32)
    ensures
        r == encode_spec(i),
{
    match i {
        Instr::Eof => pack_word(OP_EOF, 0, 0),
        Instr::Mov { dst, src } => pack_word(OP_MOV, dst, src as u16),
        Instr::Mop { dst, src } => pack_word(OP_MOP, dst, src as u16),
        Instr::Str { dst, imm } => pack_word(OP_STR, dst, imm),
        Instr::Adi { dst, imm } => pack_word(OP_ADI, dst, imm),
        Instr::Sui { dst, imm } => pack_word(OP_SUI, dst, imm),
        Instr::Jmp { target } => pack_word(OP_JMP, target, 0),
        Instr::Jz { target } => pack_word(OP_JZ, target, 0),
        Instr::Cmp { a, b } => pack_word(OP_CMP, a, ((b as u16) << 8u16) as u16),
        Instr::Prn { addr } => pack_word(OP_PRN, addr, 0),
        Instr::Mul { dst, src } => pack_word(OP_MUL, dst, src as u16),
        Instr::Div { dst, src } => pack_word(OP_DIV, dst, src as u16),
        Instr::Unknown { opcode } => pack_word(opcode, 0, 0),
    }
}

} // verus!
