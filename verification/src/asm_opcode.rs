//! Instruction encoder: pure functions mapping a symbolic operation
//! (move-immediate, move to/from an absolute address, syscall) to its exact
//! machine-code byte sequence. Immediates and addresses are encoded as
//! little-endian fields, the native byte order of x86-64.

use vstd::bytes::*;
use vstd::prelude::*;

verus! {

/// The sixteen general-purpose registers. Each maps to a 3-bit operand
/// selector plus a 1-bit "extended register" flag (the flag only for the
/// upper eight).
#[derive(Clone, Copy, PartialEq, Eq, Structural, Debug)]
pub enum Register {
    RAX,
    RCX,
    RDX,
    RBX,
    RSP,
    RBP,
    RSI,
    RDI,
    R8,
    R9,
    R10,
    R11,
    R12,
    R13,
    R14,
    R15,
}

/// The 3-bit operand selector of a register, as added to a `0xb8`-family
/// opcode byte.
pub open spec fn spec_register_operand(reg: Register) -> u8 {
    match reg {
        Register::RAX => 0x00,
        Register::RCX => 0x01,
        Register::RDX => 0x02,
        Register::RBX => 0x03,
        Register::RSP => 0x04,
        Register::RBP => 0x05,
        Register::RSI => 0x06,
        Register::RDI => 0x07,
        Register::R8 => 0x00,
        Register::R9 => 0x01,
        Register::R10 => 0x02,
        Register::R11 => 0x03,
        Register::R12 => 0x04,
        Register::R13 => 0x05,
        Register::R14 => 0x06,
        Register::R15 => 0x07,
    }
}

/// The REX.B bit: set exactly for the upper half of the register file.
pub open spec fn spec_rex_b(reg: Register) -> u8 {
    match reg {
        Register::R8 => 0x01,
        Register::R9 => 0x01,
        Register::R10 => 0x01,
        Register::R11 => 0x01,
        Register::R12 => 0x01,
        Register::R13 => 0x01,
        Register::R14 => 0x01,
        Register::R15 => 0x01,
        _ => 0x00,
    }
}

fn get_register_operand(reg: &Register) -> (operand: u8)
    ensures
        operand == spec_register_operand(*reg),
{
    match reg {
        Register::RAX => 0x00,
        Register::RCX => 0x01,
        Register::RDX => 0x02,
        Register::RBX => 0x03,
        Register::RSP => 0x04,
        Register::RBP => 0x05,
        Register::RSI => 0x06,
        Register::RDI => 0x07,
        Register::R8 => 0x00,
        Register::R9 => 0x01,
        Register::R10 => 0x02,
        Register::R11 => 0x03,
        Register::R12 => 0x04,
        Register::R13 => 0x05,
        Register::R14 => 0x06,
        Register::R15 => 0x07,
    }
}

fn get_rex_opcode_reg(reg: &Register) -> (gpr_select: u8)
    ensures
        gpr_select == spec_rex_b(*reg),
{
    match reg {
        Register::R8 => 0x01,
        Register::R9 => 0x01,
        Register::R10 => 0x01,
        Register::R11 => 0x01,
        Register::R12 => 0x01,
        Register::R13 => 0x01,
        Register::R14 => 0x01,
        Register::R15 => 0x01,
        _ => 0x00,
    }
}

/// `mov reg, imm64`: REX.W (+REX.B for the upper eight registers), opcode
/// `0xb8` plus the operand selector, then the eight little-endian bytes of
/// the immediate.
pub open spec fn spec_mov_im(reg: Register, val: u64) -> Seq<u8> {
    seq![
        (0x48 + spec_rex_b(reg)) as u8,
        (0xb8 + spec_register_operand(reg)) as u8,
    ] + spec_u64_to_le_bytes(val)
}

/// `mov reg, imm32`: opcode `0xb8` plus the operand selector, then the four
/// little-endian bytes of the immediate. No REX prefix.
pub open spec fn spec_mov_im_32(reg: Register, val: u32) -> Seq<u8> {
    seq![(0xb8 + spec_register_operand(reg)) as u8] + spec_u32_to_le_bytes(val)
}

/// `mov [moffs64], rax`: REX.W, opcode `0xa3`, then the eight little-endian
/// bytes of the absolute address.
pub open spec fn spec_mov_rax_to_offset(offset: u64) -> Seq<u8> {
    seq![0x48u8, 0xa3u8] + spec_u64_to_le_bytes(offset)
}

/// `mov rax, [moffs64]`: REX.W, opcode `0xa1`, then the eight little-endian
/// bytes of the absolute address.
pub open spec fn spec_mov_offset_to_rax(offset: u64) -> Seq<u8> {
    seq![0x48u8, 0xa1u8] + spec_u64_to_le_bytes(offset)
}

/// The fixed two-byte `syscall` instruction.
pub open spec fn spec_syscall() -> Seq<u8> {
    seq![0x0fu8, 0x05u8]
}

pub fn mov_im(reg: Register, val: u64) -> (opcode: Vec<u8>)
    ensures
        opcode@ == spec_mov_im(reg, val),
        opcode@.len() == 10,
{
    let mut opcode: Vec<u8> = Vec::new();
    opcode.push(0x48 + get_rex_opcode_reg(&reg));
    opcode.push(0xb8 + get_register_operand(&reg));
    let mut val_bytes = u64_to_le_bytes(val);
    opcode.append(&mut val_bytes);
    proof {
        assert(opcode@ =~= spec_mov_im(reg, val));
    }
    opcode
}

pub fn mov_im_32(reg: Register, val: u32) -> (opcode: Vec<u8>)
    ensures
        opcode@ == spec_mov_im_32(reg, val),
        opcode@.len() == 5,
{
    let mut opcode: Vec<u8> = Vec::new();
    opcode.push(0xb8 + get_register_operand(&reg));
    let mut val_bytes = u32_to_le_bytes(val);
    opcode.append(&mut val_bytes);
    proof {
        assert(opcode@ =~= spec_mov_im_32(reg, val));
    }
    opcode
}

pub fn mov_rax_to_offset(offset: u64) -> (opcode: Vec<u8>)
    ensures
        opcode@ == spec_mov_rax_to_offset(offset),
        opcode@.len() == 10,
{
    let mut opcode: Vec<u8> = Vec::new();
    opcode.push(0x48);
    opcode.push(0xa3);
    let mut val_bytes = u64_to_le_bytes(offset);
    opcode.append(&mut val_bytes);
    proof {
        assert(opcode@ =~= spec_mov_rax_to_offset(offset));
    }
    opcode
}

pub fn mov_offset_to_rax(offset: u64) -> (opcode: Vec<u8>)
    ensures
        opcode@ == spec_mov_offset_to_rax(offset),
        opcode@.len() == 10,
{
    let mut opcode: Vec<u8> = Vec::new();
    opcode.push(0x48);
    opcode.push(0xa1);
    let mut val_bytes = u64_to_le_bytes(offset);
    opcode.append(&mut val_bytes);
    proof {
        assert(opcode@ =~= spec_mov_offset_to_rax(offset));
    }
    opcode
}

pub fn syscall() -> (opcode: Vec<u8>)
    ensures
        opcode@ == spec_syscall(),
        opcode@.len() == 2,
{
    let mut opcode: Vec<u8> = Vec::new();
    opcode.push(0x0f);
    opcode.push(0x05);
    proof {
        assert(opcode@ =~= spec_syscall());
    }
    opcode
}

/// For every register and every 64-bit value, `mov_im` yields a ten-byte
/// sequence whose last eight bytes decode back to the value and whose first
/// two bytes encode the register per the register table.
pub proof fn lemma_mov_im_round_trip(reg: Register, val: u64)
    ensures
        spec_mov_im(reg, val).len() == 10,
        spec_u64_from_le_bytes(spec_mov_im(reg, val).subrange(2, 10)) == val,
        spec_mov_im(reg, val)[0] == 0x48 + spec_rex_b(reg),
        spec_mov_im(reg, val)[1] == 0xb8 + spec_register_operand(reg),
{
    lemma_auto_spec_u64_to_from_le_bytes();
    assert(spec_mov_im(reg, val).subrange(2, 10) =~= spec_u64_to_le_bytes(val));
}

} // verus!
