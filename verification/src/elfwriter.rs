//! ELF64 building blocks: the file header, program headers (loadable
//! segments), section headers, and the section-name string table, each with
//! an exact little-endian serialization.

use crate::strutil::str_eq;
use vstd::bytes::*;
use vstd::prelude::*;
use vstd::string::StrSliceExecFns;
use vstd::utf8::encode_utf8;
use vstd::utf8::is_ascii_chars;
use vstd::utf8::is_ascii_chars_encode_utf8;

verus! {

/// Size in bytes of the serialized ELF header.
pub const ELF_HEADER_SIZE: u64 = 64;

/// Size in bytes of one serialized program header.
pub const PROGRAM_HEADER_SIZE: u64 = 56;

/// Size in bytes of one serialized section header.
pub const SECTION_HEADER_SIZE: u64 = 64;

/// The virtual address the text segment is mapped at.
pub const TEXT_SEGMENT_BASE: u64 = 0x400000;

/// The virtual address the data segment is mapped at.
pub const DATA_SEGMENT_BASE: u64 = 0x800000;

/// The fixed 64-byte ELF64 file header.
pub struct ElfHeader {
    pub e_magic: u32,
    pub e_class: u8,
    pub e_data: u8,
    pub e_ident_version: u8,
    pub e_osabi: u8,
    pub e_ident_pad: u64,
    pub e_type: u16,
    pub e_machine: u16,
    pub e_version: u32,
    pub e_entry: u64,
    pub e_phoff: u64,
    pub e_shoff: u64,
    pub e_flags: u32,
    pub e_ehsize: u16,
    pub e_phentsize: u16,
    pub e_phnum: u16,
    pub e_shentsize: u16,
    pub e_shnum: u16,
    pub e_shstrndx: u16,
}

/// The little-endian serialization of an ELF header: identification bytes,
/// then each field in declaration order.
pub open spec fn spec_elf_header_bytes(h: ElfHeader) -> Seq<u8> {
    spec_u32_to_le_bytes(h.e_magic) + seq![h.e_class, h.e_data, h.e_ident_version, h.e_osabi]
        + spec_u64_to_le_bytes(h.e_ident_pad) + spec_u16_to_le_bytes(h.e_type)
        + spec_u16_to_le_bytes(h.e_machine) + spec_u32_to_le_bytes(h.e_version)
        + spec_u64_to_le_bytes(h.e_entry) + spec_u64_to_le_bytes(h.e_phoff) + spec_u64_to_le_bytes(
        h.e_shoff,
    ) + spec_u32_to_le_bytes(h.e_flags) + spec_u16_to_le_bytes(h.e_ehsize) + spec_u16_to_le_bytes(
        h.e_phentsize,
    ) + spec_u16_to_le_bytes(h.e_phnum) + spec_u16_to_le_bytes(h.e_shentsize)
        + spec_u16_to_le_bytes(h.e_shnum) + spec_u16_to_le_bytes(h.e_shstrndx)
}

impl ElfHeader {
    /// Defaults for a 64-bit little-endian executable with two loadable
    /// segments (text and data): entry right after the file headers, the
    /// program-header table right after this header.
    pub fn new() -> (h: ElfHeader)
        ensures
            h == (ElfHeader {
                e_magic: 0x464c457f,
                e_class: 2,
                e_data: 1,
                e_ident_version: 1,
                e_osabi: 0,
                e_ident_pad: 0,
                e_type: 2,
                e_machine: 0x3e,
                e_version: 1,
                e_entry: (TEXT_SEGMENT_BASE + 0xb0) as u64,
                e_phoff: ELF_HEADER_SIZE,
                e_shoff: 0x80,
                e_flags: 0,
                e_ehsize: ELF_HEADER_SIZE as u16,
                e_phentsize: PROGRAM_HEADER_SIZE as u16,
                e_phnum: 2,
                e_shentsize: SECTION_HEADER_SIZE as u16,
                e_shnum: 2,
                e_shstrndx: 1,
            }),
    {
        ElfHeader {
            e_magic: 0x464c457f,  // 0x7f 'E' 'L' 'F'
            e_class: 2,  // 64 bit
            e_data: 1,  // little-endian data
            e_ident_version: 1,  // ELF format v1
            e_osabi: 0,  // OS ABI v0
            e_ident_pad: 0,
            e_type: 2,  // executable file
            e_machine: 0x3e,  // AMD64
            e_version: 1,
            e_entry: TEXT_SEGMENT_BASE + 0xb0,
            e_phoff: ELF_HEADER_SIZE,
            e_shoff: 0x80,
            e_flags: 0,
            e_ehsize: 64,
            e_phentsize: 56,
            e_phnum: 2,
            e_shentsize: 64,
            e_shnum: 2,
            e_shstrndx: 1,
        }
    }

    /// Mark the file as an executable, or as a relocatable object.
    pub fn set_type(&mut self, is_executable: bool)
        ensures
            *final(self) == (ElfHeader {
                e_type: if is_executable {
                    2u16
                } else {
                    1u16
                },
                ..*old(self)
            }),
    {
        self.e_type = if is_executable {
            2
        } else {
            1
        };
    }

    /// Set the entry-point virtual address.
    pub fn set_entry(&mut self, entry_point: u64)
        ensures
            *final(self) == (ElfHeader { e_entry: entry_point, ..*old(self) }),
    {
        self.e_entry = entry_point;
    }

    /// Set the file offset of the program-header table.
    pub fn set_phoff(&mut self, phoff: u64)
        ensures
            *final(self) == (ElfHeader { e_phoff: phoff, ..*old(self) }),
    {
        self.e_phoff = phoff;
    }

    /// Set the size of one program-header entry.
    pub fn set_phentsize(&mut self, phentsize: u16)
        ensures
            *final(self) == (ElfHeader { e_phentsize: phentsize, ..*old(self) }),
    {
        self.e_phentsize = phentsize;
    }

    /// Set the file offset of the section-header table.
    pub fn set_shoff(&mut self, shoff: u64)
        ensures
            *final(self) == (ElfHeader { e_shoff: shoff, ..*old(self) }),
    {
        self.e_shoff = shoff;
    }

    /// Set the size of one section-header entry.
    pub fn set_shentsize(&mut self, shentsize: u16)
        ensures
            *final(self) == (ElfHeader { e_shentsize: shentsize, ..*old(self) }),
    {
        self.e_shentsize = shentsize;
    }

    /// Set the number of section headers.
    pub fn set_shnum(&mut self, shnum: u16)
        ensures
            *final(self) == (ElfHeader { e_shnum: shnum, ..*old(self) }),
    {
        self.e_shnum = shnum;
    }

    /// Set which section header is the section-name string table.
    pub fn set_shstrndx(&mut self, shstrndx: u16)
        ensures
            *final(self) == (ElfHeader { e_shstrndx: shstrndx, ..*old(self) }),
    {
        self.e_shstrndx = shstrndx;
    }

    /// Serialize the header to its exact 64 on-disk bytes.
    pub fn to_bytes(&self) -> (r: Vec<u8>)
        ensures
            r@ == spec_elf_header_bytes(*self),
            r@.len() == ELF_HEADER_SIZE,
    {
        let mut r: Vec<u8> = Vec::new();
        let mut piece = u32_to_le_bytes(self.e_magic);
        r.append(&mut piece);
        r.push(self.e_class);
        r.push(self.e_data);
        r.push(self.e_ident_version);
        r.push(self.e_osabi);
        let mut piece = u64_to_le_bytes(self.e_ident_pad);
        r.append(&mut piece);
        let mut piece = u16_to_le_bytes(self.e_type);
        r.append(&mut piece);
        let mut piece = u16_to_le_bytes(self.e_machine);
        r.append(&mut piece);
        let mut piece = u32_to_le_bytes(self.e_version);
        r.append(&mut piece);
        let mut piece = u64_to_le_bytes(self.e_entry);
        r.append(&mut piece);
        let mut piece = u64_to_le_bytes(self.e_phoff);
        r.append(&mut piece);
        let mut piece = u64_to_le_bytes(self.e_shoff);
        r.append(&mut piece);
        let mut piece = u32_to_le_bytes(self.e_flags);
        r.append(&mut piece);
        let mut piece = u16_to_le_bytes(self.e_ehsize);
        r.append(&mut piece);
        let mut piece = u16_to_le_bytes(self.e_phentsize);
        r.append(&mut piece);
        let mut piece = u16_to_le_bytes(self.e_phnum);
        r.append(&mut piece);
        let mut piece = u16_to_le_bytes(self.e_shentsize);
        r.append(&mut piece);
        let mut piece = u16_to_le_bytes(self.e_shnum);
        r.append(&mut piece);
        let mut piece = u16_to_le_bytes(self.e_shstrndx);
        r.append(&mut piece);
        proof {
            assert(r@ =~= spec_elf_header_bytes(*self));
        }
        r
    }
}

/// One program header: a contiguous file region the loader maps into
/// process memory with given permissions.
pub struct ElfProgramHeader {
    pub p_type: u32,
    pub p_flags: u32,
    pub p_offset: u64,
    pub p_vaddr: u64,
    pub p_paddr: u64,
    pub p_filesz: u64,
    pub p_memsz: u64,
    pub p_align: u64,
}

/// The little-endian serialization of a program header.
pub open spec fn spec_program_header_bytes(p: ElfProgramHeader) -> Seq<u8> {
    spec_u32_to_le_bytes(p.p_type) + spec_u32_to_le_bytes(p.p_flags) + spec_u64_to_le_bytes(
        p.p_offset,
    ) + spec_u64_to_le_bytes(p.p_vaddr) + spec_u64_to_le_bytes(p.p_paddr) + spec_u64_to_le_bytes(
        p.p_filesz,
    ) + spec_u64_to_le_bytes(p.p_memsz) + spec_u64_to_le_bytes(p.p_align)
}

impl ElfProgramHeader {
    /// Defaults for a loadable read+execute segment mapped at the text
    /// base, covering the file from its first byte.
    pub fn new() -> (p: ElfProgramHeader)
        ensures
            p == (ElfProgramHeader {
                p_type: 1u32,
                p_flags: 5u32,
                p_offset: 0u64,
                p_vaddr: TEXT_SEGMENT_BASE,
                p_paddr: TEXT_SEGMENT_BASE,
                p_filesz: 0u64,
                p_memsz: 0u64,
                p_align: 0x200000u64,
            }),
    {
        ElfProgramHeader {
            p_type: 1,  // loadable segment
            p_flags: 5,  // r+x
            p_offset: 0,
            p_vaddr: TEXT_SEGMENT_BASE,
            p_paddr: TEXT_SEGMENT_BASE,
            p_filesz: 0,
            p_memsz: 0,
            p_align: 0x200000,
        }
    }

    /// Set the segment type.
    pub fn set_type(&mut self, segment_type: u32)
        ensures
            *final(self) == (ElfProgramHeader { p_type: segment_type, ..*old(self) }),
    {
        self.p_type = segment_type;
    }

    /// Set the segment permission flags.
    pub fn set_flags(&mut self, flags: u32)
        ensures
            *final(self) == (ElfProgramHeader { p_flags: flags, ..*old(self) }),
    {
        self.p_flags = flags;
    }

    /// Set the file offset of the segment's first byte.
    pub fn set_offset(&mut self, offset: u64)
        ensures
            *final(self) == (ElfProgramHeader { p_offset: offset, ..*old(self) }),
    {
        self.p_offset = offset;
    }

    /// Set the virtual (and mirrored physical) destination address.
    pub fn set_addr(&mut self, dest_addr: u64)
        ensures
            *final(self) == (ElfProgramHeader {
                p_vaddr: dest_addr,
                p_paddr: dest_addr,
                ..*old(self)
            }),
    {
        self.p_vaddr = dest_addr;
        self.p_paddr = dest_addr;
    }

    /// Set the size of the segment's file image.
    pub fn set_filesz(&mut self, file_size: u64)
        ensures
            *final(self) == (ElfProgramHeader { p_filesz: file_size, ..*old(self) }),
    {
        self.p_filesz = file_size;
    }

    /// Set the size of the segment's memory image.
    pub fn set_memsz(&mut self, mem_size: u64)
        ensures
            *final(self) == (ElfProgramHeader { p_memsz: mem_size, ..*old(self) }),
    {
        self.p_memsz = mem_size;
    }

    /// Set the alignment of the segment in memory and in the file.
    pub fn set_align(&mut self, alignment: u64)
        ensures
            *final(self) == (ElfProgramHeader { p_align: alignment, ..*old(self) }),
    {
        self.p_align = alignment;
    }

    /// Serialize the program header to its exact 56 on-disk bytes.
    pub fn to_bytes(&self) -> (r: Vec<u8>)
        ensures
            r@ == spec_program_header_bytes(*self),
            r@.len() == PROGRAM_HEADER_SIZE,
    {
        let mut r: Vec<u8> = Vec::new();
        let mut piece = u32_to_le_bytes(self.p_type);
        r.append(&mut piece);
        let mut piece = u32_to_le_bytes(self.p_flags);
        r.append(&mut piece);
        let mut piece = u64_to_le_bytes(self.p_offset);
        r.append(&mut piece);
        let mut piece = u64_to_le_bytes(self.p_vaddr);
        r.append(&mut piece);
        let mut piece = u64_to_le_bytes(self.p_paddr);
        r.append(&mut piece);
        let mut piece = u64_to_le_bytes(self.p_filesz);
        r.append(&mut piece);
        let mut piece = u64_to_le_bytes(self.p_memsz);
        r.append(&mut piece);
        let mut piece = u64_to_le_bytes(self.p_align);
        r.append(&mut piece);
        proof {
            assert(r@ =~= spec_program_header_bytes(*self));
        }
        r
    }
}

/// One section header: metadata describing a named region of the file for
/// tools; not consulted by the loader.
pub struct ElfSectionHeader {
    pub sh_name: u32,
    pub sh_type: u32,
    pub sh_flags: u64,
    pub sh_addr: u64,
    pub sh_offset: u64,
    pub sh_size: u64,
    pub sh_link: u32,
    pub sh_info: u32,
    pub sh_addralign: u64,
    pub sh_entsize: u64,
}

/// The little-endian serialization of a section header.
pub open spec fn spec_section_header_bytes(s: ElfSectionHeader) -> Seq<u8> {
    spec_u32_to_le_bytes(s.sh_name) + spec_u32_to_le_bytes(s.sh_type) + spec_u64_to_le_bytes(
        s.sh_flags,
    ) + spec_u64_to_le_bytes(s.sh_addr) + spec_u64_to_le_bytes(s.sh_offset) + spec_u64_to_le_bytes(
        s.sh_size,
    ) + spec_u32_to_le_bytes(s.sh_link) + spec_u32_to_le_bytes(s.sh_info) + spec_u64_to_le_bytes(
        s.sh_addralign,
    ) + spec_u64_to_le_bytes(s.sh_entsize)
}

impl ElfSectionHeader {
    /// Defaults for an unnamed, unplaced program-data section.
    pub fn new() -> (s: ElfSectionHeader)
        ensures
            s == (ElfSectionHeader {
                sh_name: 0u32,
                sh_type: 1u32,
                sh_flags: 0u64,
                sh_addr: 0u64,
                sh_offset: 0u64,
                sh_size: 0u64,
                sh_link: 0u32,
                sh_info: 0u32,
                sh_addralign: 0u64,
                sh_entsize: 0u64,
            }),
    {
        ElfSectionHeader {
            sh_name: 0,  // offset of the name in the string table
            sh_type: 1,  // SHT_PROGBITS
            sh_flags: 0,
            sh_addr: 0,
            sh_offset: 0,
            sh_size: 0,
            sh_link: 0,
            sh_info: 0,
            sh_addralign: 0,
            sh_entsize: 0,
        }
    }

    /// Set the string-table offset of the section's name.
    pub fn set_name(&mut self, name_offset: u32)
        ensures
            *final(self) == (ElfSectionHeader { sh_name: name_offset, ..*old(self) }),
    {
        self.sh_name = name_offset;
    }

    /// Set the byte size of the section's contents.
    pub fn set_size(&mut self, section_size: u64)
        ensures
            *final(self) == (ElfSectionHeader { sh_size: section_size, ..*old(self) }),
    {
        self.sh_size = section_size;
    }

    /// Set the section type.
    pub fn set_type(&mut self, header_type: u32)
        ensures
            *final(self) == (ElfSectionHeader { sh_type: header_type, ..*old(self) }),
    {
        self.sh_type = header_type;
    }

    /// Set the file offset of the section's contents.
    pub fn set_offset(&mut self, offset: u64)
        ensures
            *final(self) == (ElfSectionHeader { sh_offset: offset, ..*old(self) }),
    {
        self.sh_offset = offset;
    }

    /// Set the section flags.
    pub fn set_flags(&mut self, flags: u64)
        ensures
            *final(self) == (ElfSectionHeader { sh_flags: flags, ..*old(self) }),
    {
        self.sh_flags = flags;
    }

    /// Set the virtual address the section is mapped at.
    pub fn set_addr(&mut self, addr: u64)
        ensures
            *final(self) == (ElfSectionHeader { sh_addr: addr, ..*old(self) }),
    {
        self.sh_addr = addr;
    }

    /// Set the section's address alignment.
    pub fn set_align(&mut self, align: u64)
        ensures
            *final(self) == (ElfSectionHeader { sh_addralign: align, ..*old(self) }),
    {
        self.sh_addralign = align;
    }

    /// Serialize the section header to its exact 64 on-disk bytes.
    pub fn to_bytes(&self) -> (r: Vec<u8>)
        ensures
            r@ == spec_section_header_bytes(*self),
            r@.len() == SECTION_HEADER_SIZE,
    {
        let mut r: Vec<u8> = Vec::new();
        let mut piece = u32_to_le_bytes(self.sh_name);
        r.append(&mut piece);
        let mut piece = u32_to_le_bytes(self.sh_type);
        r.append(&mut piece);
        let mut piece = u64_to_le_bytes(self.sh_flags);
        r.append(&mut piece);
        let mut piece = u64_to_le_bytes(self.sh_addr);
        r.append(&mut piece);
        let mut piece = u64_to_le_bytes(self.sh_offset);
        r.append(&mut piece);
        let mut piece = u64_to_le_bytes(self.sh_size);
        r.append(&mut piece);
        let mut piece = u32_to_le_bytes(self.sh_link);
        r.append(&mut piece);
        let mut piece = u32_to_le_bytes(self.sh_info);
        r.append(&mut piece);
        let mut piece = u64_to_le_bytes(self.sh_addralign);
        r.append(&mut piece);
        let mut piece = u64_to_le_bytes(self.sh_entsize);
        r.append(&mut piece);
        proof {
            assert(r@ =~= spec_section_header_bytes(*self));
        }
        r
    }
}

/// One name recorded in the string table: its text and the offset of its
/// first byte within the table.
pub ghost struct StringIndexModel {
    pub name: Seq<char>,
    pub index: int,
}

/// The index of the latest record for `name`, or -1 when none exists.
pub open spec fn find_last_string(entries: Seq<StringIndexModel>, name: Seq<char>) -> int
    decreases entries.len(),
{
    if entries.len() == 0 {
        -1
    } else if entries.last().name == name {
        entries.len() - 1
    } else {
        find_last_string(entries.drop_last(), name)
    }
}

/// `find_last_string` returns -1 exactly when no record holds `name`;
/// otherwise it returns the last index recording it.
pub proof fn lemma_find_last_string(entries: Seq<StringIndexModel>, name: Seq<char>)
    ensures
        find_last_string(entries, name) == -1 <==> (forall|k: int|
            0 <= k < entries.len() ==> entries[k].name != name),
        find_last_string(entries, name) != -1 ==> {
            &&& 0 <= find_last_string(entries, name) < entries.len()
            &&& entries[find_last_string(entries, name)].name == name
        },
    decreases entries.len(),
{
    if entries.len() == 0 {
    } else if entries.last().name == name {
    } else {
        let rest = entries.drop_last();
        lemma_find_last_string(rest, name);
        assert(forall|k: int| 0 <= k < rest.len() ==> rest[k] == entries[k]);
    }
}

struct StringIndexEntry {
    name: String,
    index: u64,
}

/// The section-name string table: a byte blob beginning with a null byte,
/// followed by null-terminated names, with a name-to-offset map.
pub struct ElfStringTable {
    st_string_bytes: Vec<u8>,
    st_string_map: Vec<StringIndexEntry>,
    st_string_len: u64,
}

impl ElfStringTable {
    /// The table's byte blob.
    pub closed spec fn spec_bytes(&self) -> Seq<u8> {
        self.st_string_bytes@
    }

    /// The recorded names with their offsets, in insertion order.
    pub closed spec fn spec_entries(&self) -> Seq<StringIndexModel> {
        self.st_string_map@.map_values(
            |e: StringIndexEntry| StringIndexModel { name: e.name@, index: e.index as int },
        )
    }

    /// Whether `name` has been added.
    pub open spec fn spec_contains(&self, name: Seq<char>) -> bool {
        find_last_string(self.spec_entries(), name) >= 0
    }

    /// The table offset recorded for `name`.
    pub open spec fn spec_index_of(&self, name: Seq<char>) -> int {
        self.spec_entries()[find_last_string(self.spec_entries(), name)].index
    }

    /// The length counter equals the blob's length.
    pub closed spec fn wf(&self) -> bool {
        self.st_string_len as int == self.st_string_bytes@.len()
    }

    /// A table holding only the leading null byte.
    pub fn new() -> (table: ElfStringTable)
        ensures
            table.wf(),
            table.spec_bytes() == seq![0u8],
            table.spec_entries() == Seq::<StringIndexModel>::empty(),
    {
        let mut bytes: Vec<u8> = Vec::new();
        bytes.push(0x0);
        let table = ElfStringTable {
            st_string_bytes: bytes,
            st_string_len: 1,
            st_string_map: Vec::new(),
        };
        proof {
            assert(table.spec_bytes() =~= seq![0u8]);
            assert(table.spec_entries() =~= Seq::<StringIndexModel>::empty());
        }
        table
    }

    fn append_null_byte(&mut self)
        requires
            old(self).wf(),
            old(self).spec_bytes().len() + 1 <= u64::MAX,
        ensures
            final(self).wf(),
            final(self).spec_bytes() == old(self).spec_bytes() + seq![0u8],
            final(self).spec_entries() == old(self).spec_entries(),
    {
        self.st_string_bytes.push(0x0);
        self.st_string_len = self.st_string_len + 1;
        proof {
            assert(self.spec_bytes() =~= old(self).spec_bytes() + seq![0u8]);
        }
    }

    /// Record a name: append its bytes and a terminating null byte, and map
    /// the name to the offset of its first byte.
    pub fn add_string(&mut self, new_string: String)
        requires
            old(self).wf(),
            old(self).spec_bytes().len() + encode_utf8(new_string@).len() + 1 <= u64::MAX,
        ensures
            final(self).wf(),
            final(self).spec_bytes() == old(self).spec_bytes() + encode_utf8(new_string@)
                + seq![0u8],
            final(self).spec_entries() == old(self).spec_entries().push(
                StringIndexModel {
                    name: new_string@,
                    index: old(self).spec_bytes().len() as int,
                },
            ),
            final(self).spec_contains(new_string@),
            final(self).spec_index_of(new_string@) == old(self).spec_bytes().len(),
    {
        let str_index = self.st_string_bytes.len() as u64;
        let ghost old_self = *self;
        let ghost name_view = new_string@;
        let mut str_bytes = new_string.as_str().as_bytes_vec();
        let added = str_bytes.len() as u64;
        self.st_string_bytes.append(&mut str_bytes);
        self.st_string_len = self.st_string_len + added;
        self.append_null_byte();
        let entry = StringIndexEntry { name: new_string, index: str_index };
        self.st_string_map.push(entry);
        proof {
            assert(self.spec_entries() =~= old_self.spec_entries().push(
                StringIndexModel { name: name_view, index: old_self.spec_bytes().len() as int },
            ));
            assert(self.spec_bytes() =~= old_self.spec_bytes() + encode_utf8(name_view)
                + seq![0u8]);
        }
    }

    /// The table offset of a recorded name, or `None` when the name was
    /// never added.
    pub fn get_string_index(&self, target: String) -> (r: Option<u64>)
        ensures
            match r {
                Some(index) => self.spec_contains(target@) && index as int == self.spec_index_of(
                    target@,
                ),
                None => !self.spec_contains(target@),
            },
    {
        let n = self.st_string_map.len();
        let mut i: usize = n;
        while i > 0
            invariant
                i <= n,
                n == self.st_string_map@.len(),
                forall|k: int| i <= k < n ==> self.spec_entries()[k].name != target@,
            decreases i,
        {
            i = i - 1;
            if str_eq(self.st_string_map[i].name.as_str(), target.as_str()) {
                proof {
                    assert(self.spec_entries()[i as int].name == target@);
                    lemma_find_last_string(self.spec_entries(), target@);
                    let found = find_last_string(self.spec_entries(), target@);
                    assert(found != -1);
                    assert(found <= i) by {
                        if found > i as int {
                            assert(self.spec_entries()[found].name != target@);
                        }
                    }
                    assert(found >= i) by {
                        lemma_find_last_prefix(self.spec_entries(), target@, i as int);
                    }
                }
                return Some(self.st_string_map[i].index);
            }
        }
        proof {
            lemma_find_last_string(self.spec_entries(), target@);
        }
        None
    }

    /// The table's total byte length, with its eight bytes in reversed
    /// order: a legacy big-endian accessor kept for tooling that expects
    /// the swapped form.
    pub fn get_table_size_be(&self) -> (r: u64)
        requires
            self.wf(),
        ensures
            r == spec_u64_swap_bytes(self.spec_bytes().len() as u64),
    {
        u64_swap_bytes(self.st_string_len)
    }

    /// The table's serialized form: its byte blob.
    pub fn to_bytes(&self) -> (r: Vec<u8>)
        ensures
            r@ == self.spec_bytes(),
    {
        let mut r: Vec<u8> = Vec::new();
        let mut i: usize = 0;
        let n = self.st_string_bytes.len();
        while i < n
            invariant
                i <= n,
                n == self.st_string_bytes@.len(),
                r@ == self.st_string_bytes@.take(i as int),
            decreases n - i,
        {
            r.push(self.st_string_bytes[i]);
            i = i + 1;
            proof {
                assert(r@ =~= self.st_string_bytes@.take(i as int));
            }
        }
        proof {
            assert(self.st_string_bytes@.take(n as int) =~= self.st_string_bytes@);
        }
        r
    }
}

proof fn lemma_find_last_prefix(entries: Seq<StringIndexModel>, name: Seq<char>, i: int)
    requires
        0 <= i < entries.len(),
        entries[i].name == name,
    ensures
        find_last_string(entries, name) >= i,
    decreases entries.len(),
{
    if entries.len() > 0 {
        if entries.last().name == name {
        } else {
            let rest = entries.drop_last();
            assert(i < rest.len());
            assert(rest[i] == entries[i]);
            lemma_find_last_prefix(rest, name, i);
        }
    }
}

/// The value whose little-endian bytes are `x`'s big-endian bytes: the
/// eight bytes of `x` in reversed order.
pub open spec fn spec_u64_swap_bytes(x: u64) -> u64 {
    ((x & 0xff) << 56) | (((x >> 8) & 0xff) << 48) | (((x >> 16) & 0xff) << 40) | (((x >> 24)
        & 0xff) << 32) | (((x >> 32) & 0xff) << 24) | (((x >> 40) & 0xff) << 16) | (((x >> 48)
        & 0xff) << 8) | ((x >> 56) & 0xff)
}

fn u64_swap_bytes(x: u64) -> (r: u64)
    ensures
        r == spec_u64_swap_bytes(x),
{
    ((x & 0xff) << 56) | (((x >> 8) & 0xff) << 48) | (((x >> 16) & 0xff) << 40) | (((x >> 24)
        & 0xff) << 32) | (((x >> 32) & 0xff) << 24) | (((x >> 40) & 0xff) << 16) | (((x >> 48)
        & 0xff) << 8) | ((x >> 56) & 0xff)
}

/// The fixed contents of the section-name string table: a null byte, then
/// ".shstrtab", ".text" and ".data", each null-terminated.
pub open spec fn spec_strtab_bytes() -> Seq<u8> {
    seq![0u8] + encode_utf8(".shstrtab"@) + seq![0u8] + encode_utf8(".text"@) + seq![0u8]
        + encode_utf8(".data"@) + seq![0u8]
}

/// String-table facts the layout rests on: the table is 23 bytes long and
/// the three names sit at offsets 1, 11 and 17.
pub proof fn lemma_strtab_layout()
    ensures
        encode_utf8(".shstrtab"@).len() == 9,
        encode_utf8(".text"@).len() == 5,
        encode_utf8(".data"@).len() == 5,
        spec_strtab_bytes().len() == 23,
        ".shstrtab"@ != ".text"@,
        ".shstrtab"@ != ".data"@,
        ".text"@ != ".data"@,
{
    reveal_strlit(".shstrtab");
    reveal_strlit(".text");
    reveal_strlit(".data");
    assert(is_ascii_chars(".shstrtab"@));
    assert(is_ascii_chars(".text"@));
    assert(is_ascii_chars(".data"@));
    is_ascii_chars_encode_utf8(".shstrtab"@);
    is_ascii_chars_encode_utf8(".text"@);
    is_ascii_chars_encode_utf8(".data"@);
    assert(".text"@[1] != ".data"@[1]);
}

/// The ELF header of the laid-out file: entry right after the data
/// section, section headers right after the code, string table fourth.
pub open spec fn spec_final_header(data_len: int, code_len: int) -> ElfHeader {
    ElfHeader {
        e_magic: 0x464c457f,
        e_class: 2,
        e_data: 1,
        e_ident_version: 1,
        e_osabi: 0,
        e_ident_pad: 0,
        e_type: 2,
        e_machine: 0x3e,
        e_version: 1,
        e_entry: (TEXT_SEGMENT_BASE + 0xb0 + data_len) as u64,
        e_phoff: ELF_HEADER_SIZE,
        e_shoff: (0xb0 + data_len + code_len) as u64,
        e_flags: 0,
        e_ehsize: 64,
        e_phentsize: 56,
        e_phnum: 2,
        e_shentsize: 64,
        e_shnum: 4,
        e_shstrndx: 3,
    }
}

/// The read+execute text segment: the whole file head through the code.
pub open spec fn spec_text_program_header(data_len: int, code_len: int) -> ElfProgramHeader {
    ElfProgramHeader {
        p_type: 1,
        p_flags: 5,
        p_offset: 0,
        p_vaddr: TEXT_SEGMENT_BASE,
        p_paddr: TEXT_SEGMENT_BASE,
        p_filesz: (0xb0 + data_len + code_len) as u64,
        p_memsz: (0xb0 + data_len + code_len) as u64,
        p_align: 0x200000,
    }
}

/// The read+write data segment: the data section alone.
pub open spec fn spec_data_program_header(data_len: int) -> ElfProgramHeader {
    ElfProgramHeader {
        p_type: 1,
        p_flags: 6,
        p_offset: 0xb0,
        p_vaddr: (DATA_SEGMENT_BASE + 0xb0) as u64,
        p_paddr: (DATA_SEGMENT_BASE + 0xb0) as u64,
        p_filesz: data_len as u64,
        p_memsz: data_len as u64,
        p_align: 0x200000,
    }
}

/// The mandatory all-zero null section header.
pub open spec fn spec_null_section_header() -> ElfSectionHeader {
    ElfSectionHeader {
        sh_name: 0,
        sh_type: 0,
        sh_flags: 0,
        sh_addr: 0,
        sh_offset: 0,
        sh_size: 0,
        sh_link: 0,
        sh_info: 0,
        sh_addralign: 0,
        sh_entsize: 0,
    }
}

/// The `.data` section header.
pub open spec fn spec_data_section_header(data_len: int) -> ElfSectionHeader {
    ElfSectionHeader {
        sh_name: 17,
        sh_type: 1,
        sh_flags: 3,
        sh_addr: (DATA_SEGMENT_BASE + 0xb0) as u64,
        sh_offset: 0xb0,
        sh_size: data_len as u64,
        sh_link: 0,
        sh_info: 0,
        sh_addralign: 4,
        sh_entsize: 0,
    }
}

/// The `.text` section header.
pub open spec fn spec_text_section_header(data_len: int, code_len: int) -> ElfSectionHeader {
    ElfSectionHeader {
        sh_name: 11,
        sh_type: 1,
        sh_flags: 6,
        sh_addr: (TEXT_SEGMENT_BASE + 0xb0 + data_len) as u64,
        sh_offset: (0xb0 + data_len) as u64,
        sh_size: code_len as u64,
        sh_link: 0,
        sh_info: 0,
        sh_addralign: 16,
        sh_entsize: 0,
    }
}

/// The `.shstrtab` section header.
pub open spec fn spec_strtab_section_header(data_len: int, code_len: int) -> ElfSectionHeader {
    ElfSectionHeader {
        sh_name: 1,
        sh_type: 3,
        sh_flags: 0,
        sh_addr: 0,
        sh_offset: (0xb0 + data_len + code_len + 256) as u64,
        sh_size: spec_strtab_bytes().len() as u64,
        sh_link: 0,
        sh_info: 0,
        sh_addralign: 1,
        sh_entsize: 0,
    }
}

/// The complete executable: ELF header, text and data program headers,
/// data bytes, instruction bytes, the four section headers, then the
/// string table. Every offset and address is computed from the same two
/// lengths.
pub open spec fn spec_elf_image(data: Seq<u8>, code: Seq<u8>) -> Seq<u8> {
    spec_elf_header_bytes(spec_final_header(data.len() as int, code.len() as int))
        + spec_program_header_bytes(
        spec_text_program_header(data.len() as int, code.len() as int),
    ) + spec_program_header_bytes(spec_data_program_header(data.len() as int)) + data + code
        + spec_section_header_bytes(spec_null_section_header()) + spec_section_header_bytes(
        spec_data_section_header(data.len() as int),
    ) + spec_section_header_bytes(
        spec_text_section_header(data.len() as int, code.len() as int),
    ) + spec_section_header_bytes(
        spec_strtab_section_header(data.len() as int, code.len() as int),
    ) + spec_strtab_bytes()
}

/// The file's `e_entry` field holds exactly the text-segment base address
/// plus the data section's byte length, whatever the data and code are, as
/// long as that address fits in 64 bits.
pub proof fn lemma_entry_point_field(data: Seq<u8>, code: Seq<u8>)
    requires
        TEXT_SEGMENT_BASE + 0xb0 + data.len() <= u64::MAX,
    ensures
        spec_elf_image(data, code).subrange(24, 32) == spec_u64_to_le_bytes(
            (TEXT_SEGMENT_BASE + 0xb0 + data.len()) as u64,
        ),
        spec_u64_from_le_bytes(spec_elf_image(data, code).subrange(24, 32)) == TEXT_SEGMENT_BASE
            + 0xb0 + data.len(),
{
    lemma_auto_spec_u16_to_from_le_bytes();
    lemma_auto_spec_u32_to_from_le_bytes();
    lemma_auto_spec_u64_to_from_le_bytes();
    let h = spec_final_header(data.len() as int, code.len() as int);
    let hb = spec_elf_header_bytes(h);
    assert(hb.subrange(24, 32) =~= spec_u64_to_le_bytes(h.e_entry));
    assert(spec_elf_image(data, code).subrange(24, 32) =~= hb.subrange(24, 32));
}

} // verus!
