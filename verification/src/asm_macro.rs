//! Named "macro" operations, each a short fixed sequence of encoded
//! instructions appended to an output buffer. Every function returns the
//! exact number of bytes it appended.

use crate::asm_opcode as op;
use vstd::prelude::*;

verus! {

/// The bytes of the process-exit sequence: `mov rax, 60` (the exit syscall
/// number), `mov rdi, 0` (status), `syscall`.
pub open spec fn spec_exit_bytes() -> Seq<u8> {
    op::spec_mov_im(op::Register::RAX, 60) + op::spec_mov_im(op::Register::RDI, 0)
        + op::spec_syscall()
}

/// The bytes of the print-string sequence: `mov eax, 1` (the write syscall
/// number), `mov edi, 1` (stdout), `mov rsi, str_offset`, `mov rdx,
/// str_len`, `syscall`.
pub open spec fn spec_print_str_bytes(str_offset: u64, str_len: u64) -> Seq<u8> {
    op::spec_mov_im_32(op::Register::RAX, 1) + op::spec_mov_im_32(op::Register::RDI, 1)
        + op::spec_mov_im(op::Register::RSI, str_offset) + op::spec_mov_im(
        op::Register::RDX,
        str_len,
    ) + op::spec_syscall()
}

/// The bytes of the store-integer sequence: `mov rax, value`, then a store
/// of `rax` to the absolute address.
pub open spec fn spec_store_int_bytes(address: u64, value: u64) -> Seq<u8> {
    op::spec_mov_im(op::Register::RAX, value) + op::spec_mov_rax_to_offset(address)
}

/// The bytes of the load-integer sequence: a load from the absolute address
/// into `rax`.
pub open spec fn spec_load_int_bytes(address: u64) -> Seq<u8> {
    op::spec_mov_offset_to_rax(address)
}

/// Terminate the process with status 0. Appends 22 bytes.
pub fn exit(output: &mut Vec<u8>) -> (emitted: u64)
    ensures
        final(output)@ == old(output)@ + spec_exit_bytes(),
        final(output)@.len() == old(output)@.len() + 22,
        emitted == 22,
{
    let mut bytes = op::mov_im(op::Register::RAX, 60);
    output.append(&mut bytes);
    let mut bytes = op::mov_im(op::Register::RDI, 0);
    output.append(&mut bytes);
    let mut bytes = op::syscall();
    output.append(&mut bytes);
    22
}

/// Write `str_len` bytes starting at absolute address `str_offset` to file
/// descriptor 1. Appends 32 bytes.
pub fn print_str(output: &mut Vec<u8>, str_offset: u64, str_len: u64) -> (emitted: u64)
    ensures
        final(output)@ == old(output)@ + spec_print_str_bytes(str_offset, str_len),
        final(output)@.len() == old(output)@.len() + 32,
        emitted == 32,
{
    let mut bytes = op::mov_im_32(op::Register::RAX, 1);
    output.append(&mut bytes);
    let mut bytes = op::mov_im_32(op::Register::RDI, 1);
    output.append(&mut bytes);
    let mut bytes = op::mov_im(op::Register::RSI, str_offset);
    output.append(&mut bytes);
    let mut bytes = op::mov_im(op::Register::RDX, str_len);
    output.append(&mut bytes);
    let mut bytes = op::syscall();
    output.append(&mut bytes);
    32
}

/// Write the 8-byte integer `value` to the absolute address `address`.
/// Appends 20 bytes.
pub fn store_int(output: &mut Vec<u8>, address: u64, value: u64) -> (emitted: u64)
    ensures
        final(output)@ == old(output)@ + spec_store_int_bytes(address, value),
        final(output)@.len() == old(output)@.len() + 20,
        emitted == 20,
{
    let mut bytes = op::mov_im(op::Register::RAX, value);
    output.append(&mut bytes);
    let mut bytes = op::mov_rax_to_offset(address);
    output.append(&mut bytes);
    20
}

/// Load the 8-byte integer at the absolute address `address` into `rax`.
/// Appends 10 bytes.
pub fn load_int(output: &mut Vec<u8>, address: u64) -> (emitted: u64)
    ensures
        final(output)@ == old(output)@ + spec_load_int_bytes(address),
        final(output)@.len() == old(output)@.len() + 10,
        emitted == 10,
{
    let mut bytes = op::mov_offset_to_rax(address);
    output.append(&mut bytes);
    10
}

/// The process-exit sequence is 22 bytes long.
pub proof fn lemma_exit_bytes_len()
    ensures
        spec_exit_bytes().len() == 22,
{
    vstd::bytes::lemma_auto_spec_u64_to_from_le_bytes();
}

/// The print-string sequence is 32 bytes long.
pub proof fn lemma_print_str_bytes_len(str_offset: u64, str_len: u64)
    ensures
        spec_print_str_bytes(str_offset, str_len).len() == 32,
{
    vstd::bytes::lemma_auto_spec_u64_to_from_le_bytes();
    vstd::bytes::lemma_auto_spec_u32_to_from_le_bytes();
}

/// The store-integer sequence is 20 bytes long.
pub proof fn lemma_store_int_bytes_len(address: u64, value: u64)
    ensures
        spec_store_int_bytes(address, value).len() == 20,
{
    vstd::bytes::lemma_auto_spec_u64_to_from_le_bytes();
}

} // verus!
