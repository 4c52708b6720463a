use tinycomp::asm_opcode::{
    mov_im, mov_im_32, mov_offset_to_rax, mov_rax_to_offset, syscall, Register,
};

fn all_registers() -> Vec<(Register, u8, u8)> {
    // (register, expected REX byte, expected opcode byte)
    vec![
        (Register::RAX, 0x48, 0xb8),
        (Register::RCX, 0x48, 0xb9),
        (Register::RDX, 0x48, 0xba),
        (Register::RBX, 0x48, 0xbb),
        (Register::RSP, 0x48, 0xbc),
        (Register::RBP, 0x48, 0xbd),
        (Register::RSI, 0x48, 0xbe),
        (Register::RDI, 0x48, 0xbf),
        (Register::R8, 0x49, 0xb8),
        (Register::R9, 0x49, 0xb9),
        (Register::R10, 0x49, 0xba),
        (Register::R11, 0x49, 0xbb),
        (Register::R12, 0x49, 0xbc),
        (Register::R13, 0x49, 0xbd),
        (Register::R14, 0x49, 0xbe),
        (Register::R15, 0x49, 0xbf),
    ]
}

#[test]
fn mov_im_encodes_every_register_and_decodes_back() {
    let values: [u64; 5] = [0, 1, 42, 0x0123456789abcdef, u64::MAX];
    for (reg, rex, op) in all_registers() {
        for &v in values.iter() {
            let bytes = mov_im(reg, v);
            assert_eq!(bytes.len(), 10);
            assert_eq!(bytes[0], rex);
            assert_eq!(bytes[1], op);
            let mut imm = [0u8; 8];
            imm.copy_from_slice(&bytes[2..10]);
            assert_eq!(u64::from_le_bytes(imm), v);
        }
    }
}

#[test]
fn mov_im_concrete_bytes() {
    let bytes = mov_im(Register::RAX, 60);
    assert_eq!(bytes, vec![0x48, 0xb8, 60, 0, 0, 0, 0, 0, 0, 0]);
}

#[test]
fn mov_im_32_encodes_little_endian() {
    let bytes = mov_im_32(Register::RDI, 1);
    assert_eq!(bytes, vec![0xbf, 1, 0, 0, 0]);
    let bytes = mov_im_32(Register::RAX, 0x01020304);
    assert_eq!(bytes, vec![0xb8, 0x04, 0x03, 0x02, 0x01]);
}

#[test]
fn mov_rax_store_and_load_forms() {
    let store = mov_rax_to_offset(0x8000b0);
    assert_eq!(store, vec![0x48, 0xa3, 0xb0, 0x00, 0x80, 0, 0, 0, 0, 0]);
    let load = mov_offset_to_rax(0x8000b0);
    assert_eq!(load, vec![0x48, 0xa1, 0xb0, 0x00, 0x80, 0, 0, 0, 0, 0]);
}

#[test]
fn syscall_is_two_fixed_bytes() {
    assert_eq!(syscall(), vec![0x0f, 0x05]);
}
