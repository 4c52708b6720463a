use tinycomp::constdata::ConstData;
use tinycomp::elfwriter::{ElfHeader, ElfProgramHeader, ElfSectionHeader, ElfStringTable};
use tinycomp::generator::generate;
use tinycomp::parser::Parser;
use tinycomp::scanner::scan;

fn u16_at(bytes: &[u8], off: usize) -> u16 {
    let mut b = [0u8; 2];
    b.copy_from_slice(&bytes[off..off + 2]);
    u16::from_le_bytes(b)
}

fn u32_at(bytes: &[u8], off: usize) -> u32 {
    let mut b = [0u8; 4];
    b.copy_from_slice(&bytes[off..off + 4]);
    u32::from_le_bytes(b)
}

fn u64_at(bytes: &[u8], off: usize) -> u64 {
    let mut b = [0u8; 8];
    b.copy_from_slice(&bytes[off..off + 8]);
    u64::from_le_bytes(b)
}

#[test]
fn elf_header_serializes_to_64_bytes_with_defaults() {
    let h = ElfHeader::new();
    let bytes = h.to_bytes();
    assert_eq!(bytes.len(), 64);
    assert_eq!(&bytes[0..4], &[0x7f, 0x45, 0x4c, 0x46]);
    assert_eq!(&bytes[4..8], &[2, 1, 1, 0]);
    assert_eq!(u16_at(&bytes, 16), 2); // executable
    assert_eq!(u16_at(&bytes, 18), 0x3e); // AMD64
    assert_eq!(u32_at(&bytes, 20), 1);
    assert_eq!(u64_at(&bytes, 24), 0x4000b0);
    assert_eq!(u64_at(&bytes, 32), 64); // program headers follow the header
    assert_eq!(u16_at(&bytes, 52), 64); // ehsize
    assert_eq!(u16_at(&bytes, 54), 56); // phentsize
    assert_eq!(u16_at(&bytes, 56), 2); // two loadable segments
}

#[test]
fn elf_header_setters_change_their_fields() {
    let mut h = ElfHeader::new();
    h.set_type(false);
    h.set_entry(0x1234);
    h.set_phoff(0x40);
    h.set_phentsize(56);
    h.set_shoff(0x999);
    h.set_shentsize(64);
    h.set_shnum(4);
    h.set_shstrndx(3);
    let bytes = h.to_bytes();
    assert_eq!(u16_at(&bytes, 16), 1);
    assert_eq!(u64_at(&bytes, 24), 0x1234);
    assert_eq!(u64_at(&bytes, 40), 0x999);
    assert_eq!(u16_at(&bytes, 58), 64);
    assert_eq!(u16_at(&bytes, 60), 4);
    assert_eq!(u16_at(&bytes, 62), 3);
}

#[test]
fn program_header_serializes_to_56_bytes() {
    let mut p = ElfProgramHeader::new();
    p.set_type(1);
    p.set_flags(6);
    p.set_offset(176);
    p.set_addr(0x8000b0);
    p.set_filesz(2);
    p.set_memsz(2);
    p.set_align(0x200000);
    let bytes = p.to_bytes();
    assert_eq!(bytes.len(), 56);
    assert_eq!(u32_at(&bytes, 0), 1);
    assert_eq!(u32_at(&bytes, 4), 6);
    assert_eq!(u64_at(&bytes, 8), 176);
    assert_eq!(u64_at(&bytes, 16), 0x8000b0);
    assert_eq!(u64_at(&bytes, 24), 0x8000b0); // physical mirrors virtual
    assert_eq!(u64_at(&bytes, 32), 2);
    assert_eq!(u64_at(&bytes, 40), 2);
    assert_eq!(u64_at(&bytes, 48), 0x200000);
}

#[test]
fn section_header_serializes_to_64_bytes() {
    let mut s = ElfSectionHeader::new();
    s.set_name(11);
    s.set_type(1);
    s.set_flags(6);
    s.set_addr(0x4000b0);
    s.set_offset(176);
    s.set_size(54);
    s.set_align(16);
    let bytes = s.to_bytes();
    assert_eq!(bytes.len(), 64);
    assert_eq!(u32_at(&bytes, 0), 11);
    assert_eq!(u32_at(&bytes, 4), 1);
    assert_eq!(u64_at(&bytes, 8), 6);
    assert_eq!(u64_at(&bytes, 16), 0x4000b0);
    assert_eq!(u64_at(&bytes, 24), 176);
    assert_eq!(u64_at(&bytes, 32), 54);
    assert_eq!(u64_at(&bytes, 56), 0);
}

#[test]
fn string_table_records_names_after_the_leading_null() {
    let mut t = ElfStringTable::new();
    t.add_string(".shstrtab".to_string());
    t.add_string(".text".to_string());
    t.add_string(".data".to_string());
    assert_eq!(t.get_string_index(".shstrtab".to_string()), Some(1));
    assert_eq!(t.get_string_index(".text".to_string()), Some(11));
    assert_eq!(t.get_string_index(".data".to_string()), Some(17));
    assert_eq!(t.get_string_index(".bss".to_string()), None);
    let bytes = t.to_bytes();
    assert_eq!(bytes.len(), 23);
    assert_eq!(bytes[0], 0);
    assert_eq!(&bytes[1..10], b".shstrtab");
    assert_eq!(bytes[10], 0);
    assert_eq!(&bytes[11..16], b".text");
    assert_eq!(&bytes[17..22], b".data");
    assert_eq!(bytes[22], 0);
}

#[test]
fn table_size_be_is_the_size_with_bytes_reversed() {
    let mut t = ElfStringTable::new();
    t.add_string(".shstrtab".to_string());
    t.add_string(".text".to_string());
    t.add_string(".data".to_string());
    assert_eq!(t.get_table_size_be(), 23u64.swap_bytes());
}

#[test]
fn entry_point_is_text_base_plus_data_length() {
    // data lengths 0, 5 and 300
    let cd = ConstData::new();
    let file = generate(Vec::new(), &cd);
    assert_eq!(u64_at(&file, 24), 0x4000b0);

    let mut cd = ConstData::new();
    cd.insert("12345");
    let file = generate(Vec::new(), &cd);
    assert_eq!(u64_at(&file, 24), 0x4000b0 + 5);

    let mut cd = ConstData::new();
    let long = "a".repeat(300);
    cd.insert(&long);
    let file = generate(Vec::new(), &cd);
    assert_eq!(u64_at(&file, 24), 0x4000b0 + 300);
}

#[test]
fn empty_program_file_layout() {
    let cd = ConstData::new();
    let file = generate(Vec::new(), &cd);
    // header 64 + two program headers 112 + code 22 + sections 256 + names 23
    assert_eq!(file.len(), 477);
    assert_eq!(u64_at(&file, 40), 176 + 22); // section headers follow the code
    assert_eq!(u16_at(&file, 56), 2);
    assert_eq!(u16_at(&file, 60), 4);
    assert_eq!(u16_at(&file, 62), 3);
    // text segment: offset 0, base 0x400000, covering head through code
    assert_eq!(u64_at(&file, 72), 0);
    assert_eq!(u64_at(&file, 80), 0x400000);
    assert_eq!(u64_at(&file, 96), 176 + 22);
    // data segment: offset 176, base 0x8000b0, zero length
    assert_eq!(u64_at(&file, 120 + 8), 176);
    assert_eq!(u64_at(&file, 120 + 16), 0x8000b0);
    assert_eq!(u64_at(&file, 120 + 32), 0);
    // the code is exactly the exit sequence
    assert_eq!(&file[176..178], &[0x48, 0xb8]);
    assert_eq!(&file[196..198], &[0x0f, 0x05]);
}

#[test]
fn end_to_end_print_program() {
    let tokens = scan("print(97);".to_string());
    let mut p = Parser::new(&tokens);
    let ast = p.start().expect("parse should succeed");
    let cd = p.get_const_data();
    let file = generate(ast, cd);
    // data 2 + code (32 print + 22 exit)
    assert_eq!(file.len(), 176 + 2 + 54 + 256 + 23);
    assert_eq!(u64_at(&file, 24), 0x4000b2);
    assert_eq!(&file[176..178], b"97");
    // the print sequence points at the literal's address and length
    let code = &file[178..232];
    assert_eq!(u64_at(code, 12), 0x8000b0);
    assert_eq!(u64_at(code, 22), 2);
    // section headers: null, .data, .text, .shstrtab
    let sh = 176 + 2 + 54;
    assert_eq!(u32_at(&file, sh + 64), 17); // .data name offset
    assert_eq!(u64_at(&file, sh + 64 + 32), 2); // .data size
    assert_eq!(u32_at(&file, sh + 128), 11); // .text name offset
    assert_eq!(u64_at(&file, sh + 128 + 32), 54); // .text size
    assert_eq!(u64_at(&file, sh + 128 + 16), 0x4000b2); // .text address
    assert_eq!(u32_at(&file, sh + 192), 1); // .shstrtab name offset
    assert_eq!(u64_at(&file, sh + 192 + 24), (sh + 256) as u64); // its offset
    // the name table closes the file
    assert_eq!(&file[file.len() - 22..file.len() - 13], b".shstrtab");
}

#[test]
fn end_to_end_assignment_program() {
    let tokens = scan("x = 42;".to_string());
    let mut p = Parser::new(&tokens);
    let ast = p.start().expect("parse should succeed");
    let cd = p.get_const_data();
    let file = generate(ast, cd);
    // data "42" + store (20) + exit (22)
    assert_eq!(file.len(), 176 + 2 + 42 + 256 + 23);
    assert_eq!(&file[176..178], b"42");
    let code = &file[178..220];
    // mov rax, 42
    assert_eq!(&code[0..2], &[0x48, 0xb8]);
    assert_eq!(u64_at(code, 2), 42);
    // store past the recorded constants
    assert_eq!(&code[10..12], &[0x48, 0xa3]);
    assert_eq!(u64_at(code, 12), 0x8000b0 + 2);
}

#[test]
fn end_to_end_mixed_program_orders_statements() {
    let tokens = scan("x = 1; print(97);".to_string());
    let mut p = Parser::new(&tokens);
    let ast = p.start().expect("parse should succeed");
    let cd = p.get_const_data();
    let file = generate(ast, cd);
    // data "1" then "97"; code = store (20) + print (32) + exit (22)
    assert_eq!(&file[176..179], b"197");
    let code = &file[179..179 + 74];
    assert_eq!(file.len(), 176 + 3 + 74 + 256 + 23);
    // the store targets the slot past both constants
    assert_eq!(u64_at(code, 12), 0x8000b0 + 3);
    // the print points at "97", which sits one byte into the section
    assert_eq!(u64_at(code, 20 + 12), 0x8000b0 + 1);
    assert_eq!(u64_at(code, 20 + 22), 2);
    // the program ends with the syscall of the exit sequence
    assert_eq!(&code[72..74], &[0x0f, 0x05]);
}
