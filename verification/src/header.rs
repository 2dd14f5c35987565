//! ELF64 headers: the file header, program headers, and section headers,
//! each with its exact byte encoding.

use vstd::prelude::*;
use crate::bytesutil::{le_byte64, le_byte64_x};
use crate::dynsym::{push_le16, push_le32, push_le64};

verus! {

/// The two little-endian bytes of a 16-bit field.
pub open spec fn le2(v: u16) -> Seq<u8> {
    seq![le_byte64(v as u64, 0), le_byte64(v as u64, 1)]
}

/// The four little-endian bytes of a 32-bit field.
pub open spec fn le4(v: u32) -> Seq<u8> {
    seq![
        le_byte64(v as u64, 0),
        le_byte64(v as u64, 1),
        le_byte64(v as u64, 2),
        le_byte64(v as u64, 3),
    ]
}

/// The eight little-endian bytes of a 64-bit field.
pub open spec fn le8(v: u64) -> Seq<u8> {
    seq![
        le_byte64(v, 0),
        le_byte64(v, 1),
        le_byte64(v, 2),
        le_byte64(v, 3),
        le_byte64(v, 4),
        le_byte64(v, 5),
        le_byte64(v, 6),
        le_byte64(v, 7),
    ]
}

/// The ELF file header (64 bytes).
#[derive(Debug, Clone, Copy)]
pub struct ElfHeader {
    pub e_ident: [u8; 16],
    pub e_type: u16,
    pub e_machine: u16,
    pub e_version: u32,
    pub e_entry: u64,
    pub e_phoff: u64,
    pub e_shoff: u64,
    pub e_flags: u32,
    pub e_ehsize: u16,
    pub e_phentsize: u16,
    pub e_phnum: u16,
    pub e_shentsize: u16,
    pub e_shnum: u16,
    pub e_shstrndx: u16,
}

/// The identification bytes of the objects this assembler emits:
/// `\x7fELF`, 64-bit, little-endian, version 1, System V ABI.
pub open spec fn spec_elf_ident() -> Seq<u8> {
    seq![0x7f, 0x45, 0x4c, 0x46, 0x02, 0x01, 0x01, 0x00, 0x00, 0x00, 0x00, 0x00, 0x00, 0x00, 0x00, 0x00]
}

/// The 64-byte encoding of the ELF header, fields in order, all
/// little-endian.
pub open spec fn spec_elf_header_bytes(h: ElfHeader) -> Seq<u8> {
    h.e_ident@ + le2(h.e_type) + le2(h.e_machine) + le4(h.e_version) + le8(h.e_entry) + le8(
        h.e_phoff,
    ) + le8(h.e_shoff) + le4(h.e_flags) + le2(h.e_ehsize) + le2(h.e_phentsize) + le2(h.e_phnum)
        + le2(h.e_shentsize) + le2(h.e_shnum) + le2(h.e_shstrndx)
}

impl ElfHeader {
    /// A header for a shared object of the Solana BPF machine, entry and
    /// section-header fields still unset.
    pub fn new() -> (r: Self)
        ensures
            r.e_ident@ == spec_elf_ident(),
            r.e_type == 3,
            r.e_machine == 247,
            r.e_version == 1,
            r.e_entry == 0,
            r.e_phoff == 64,
            r.e_shoff == 0,
            r.e_flags == 0,
            r.e_ehsize == 64,
            r.e_phentsize == 56,
            r.e_phnum == 0,
            r.e_shentsize == 64,
            r.e_shnum == 0,
            r.e_shstrndx == 0,
    {
        let ident: [u8; 16] = [
            0x7f,
            0x45,
            0x4c,
            0x46,
            0x02,
            0x01,
            0x01,
            0x00,
            0x00,
            0x00,
            0x00,
            0x00,
            0x00,
            0x00,
            0x00,
            0x00,
        ];
        proof {
            assert(ident@ =~= spec_elf_ident());
        }
        Self {
            e_ident: ident,
            e_type: 3,  // ET_DYN
            e_machine: 247,  // BPF
            e_version: 1,
            e_entry: 0,
            e_phoff: 64,
            e_shoff: 0,
            e_flags: 0,
            e_ehsize: 64,
            e_phentsize: 56,
            e_phnum: 0,
            e_shentsize: 64,
            e_shnum: 0,
            e_shstrndx: 0,
        }
    }

    pub fn bytecode(&self) -> (r: Vec<u8>)
        ensures
            r@ == spec_elf_header_bytes(*self),
            r@.len() == 64,
    {
        let mut bytes: Vec<u8> = Vec::new();
        let mut i: usize = 0;
        while i < 16
            invariant
                0 <= i <= 16,
                bytes@ =~= self.e_ident@.take(i as int),
            decreases 16 - i,
        {
            bytes.push(self.e_ident[i]);
            proof {
                assert(bytes@ =~= self.e_ident@.take(i + 1));
            }
            i += 1;
        }
        proof {
            assert(self.e_ident@.take(16) =~= self.e_ident@);
        }
        push_le16(&mut bytes, self.e_type);
        push_le16(&mut bytes, self.e_machine);
        push_le32(&mut bytes, self.e_version);
        push_le64(&mut bytes, self.e_entry);
        push_le64(&mut bytes, self.e_phoff);
        push_le64(&mut bytes, self.e_shoff);
        push_le32(&mut bytes, self.e_flags);
        push_le16(&mut bytes, self.e_ehsize);
        push_le16(&mut bytes, self.e_phentsize);
        push_le16(&mut bytes, self.e_phnum);
        push_le16(&mut bytes, self.e_shentsize);
        push_le16(&mut bytes, self.e_shnum);
        push_le16(&mut bytes, self.e_shstrndx);
        proof {
            assert(bytes@ =~= spec_elf_header_bytes(*self));
        }
        bytes
    }
}

/// One program header (56 bytes).
#[derive(Debug, Clone, Copy, PartialEq, Eq, Structural)]
pub struct ProgramHeader {
    pub p_type: u32,
    pub p_flags: u32,
    pub p_offset: u64,
    pub p_vaddr: u64,
    pub p_paddr: u64,
    pub p_filesz: u64,
    pub p_memsz: u64,
    pub p_align: u64,
}

/// The 56-byte encoding of a program header.
pub open spec fn spec_program_header_bytes(h: ProgramHeader) -> Seq<u8> {
    le4(h.p_type) + le4(h.p_flags) + le8(h.p_offset) + le8(h.p_vaddr) + le8(h.p_paddr) + le8(
        h.p_filesz,
    ) + le8(h.p_memsz) + le8(h.p_align)
}

impl ProgramHeader {
    /// A `PT_LOAD` header mapping `size` bytes at `offset`, read-execute
    /// when `executable`, read-only otherwise, page aligned.
    pub fn new_load(offset: u64, size: u64, executable: bool) -> (r: Self)
        ensures
            r.p_type == 1,
            r.p_flags == if executable {
                5u32
            } else {
                4u32
            },
            r.p_offset == offset,
            r.p_vaddr == offset,
            r.p_paddr == offset,
            r.p_filesz == size,
            r.p_memsz == size,
            r.p_align == 4096,
    {
        let flags: u32 = if executable {
            5  // PF_R | PF_X
        } else {
            4  // PF_R
        };
        ProgramHeader {
            p_type: 1,  // PT_LOAD
            p_flags: flags,
            p_offset: offset,
            p_vaddr: offset,
            p_paddr: offset,
            p_filesz: size,
            p_memsz: size,
            p_align: 4096,
        }
    }

    /// A `PT_DYNAMIC` header covering the `.dynamic` section, read-write,
    /// 8-byte aligned.
    pub fn new_dynamic(offset: u64, size: u64) -> (r: Self)
        ensures
            r.p_type == 2,
            r.p_flags == 6,
            r.p_offset == offset,
            r.p_vaddr == offset,
            r.p_paddr == offset,
            r.p_filesz == size,
            r.p_memsz == size,
            r.p_align == 8,
    {
        ProgramHeader {
            p_type: 2,  // PT_DYNAMIC
            p_flags: 6,  // PF_R | PF_W
            p_offset: offset,
            p_vaddr: offset,
            p_paddr: offset,
            p_filesz: size,
            p_memsz: size,
            p_align: 8,
        }
    }

    pub fn bytecode(&self) -> (r: Vec<u8>)
        ensures
            r@ == spec_program_header_bytes(*self),
            r@.len() == 56,
    {
        let mut bytes: Vec<u8> = Vec::new();
        push_le32(&mut bytes, self.p_type);
        push_le32(&mut bytes, self.p_flags);
        push_le64(&mut bytes, self.p_offset);
        push_le64(&mut bytes, self.p_vaddr);
        push_le64(&mut bytes, self.p_paddr);
        push_le64(&mut bytes, self.p_filesz);
        push_le64(&mut bytes, self.p_memsz);
        push_le64(&mut bytes, self.p_align);
        proof {
            assert(bytes@ =~= spec_program_header_bytes(*self));
        }
        bytes
    }
}

/// One section header (64 bytes).
#[derive(Debug, Clone, Copy, PartialEq, Eq, Structural)]
pub struct SectionHeader {
    pub sh_name: u32,
    pub sh_type: u32,
    pub sh_flags: u64,
    pub sh_addr: u64,
    pub sh_offset: u64,
    pub sh_size: u64,
    pub sh_link: u32,
    pub sh_info: u32,
    pub sh_addralign: u64,
    pub sh_entsize: u64,
}

/// The 64-byte encoding of a section header.
pub open spec fn spec_section_header_bytes(h: SectionHeader) -> Seq<u8> {
    le4(h.sh_name) + le4(h.sh_type) + le8(h.sh_flags) + le8(h.sh_addr) + le8(h.sh_offset) + le8(
        h.sh_size,
    ) + le4(h.sh_link) + le4(h.sh_info) + le8(h.sh_addralign) + le8(h.sh_entsize)
}

impl SectionHeader {
    pub fn new(
        name_offset: u32,
        sh_type: u32,
        flags: u64,
        addr: u64,
        offset: u64,
        size: u64,
        link: u32,
        info: u32,
        addralign: u64,
        entsize: u64,
    ) -> (r: Self)
        ensures
            r == (SectionHeader {
                sh_name: name_offset,
                sh_type,
                sh_flags: flags,
                sh_addr: addr,
                sh_offset: offset,
                sh_size: size,
                sh_link: link,
                sh_info: info,
                sh_addralign: addralign,
                sh_entsize: entsize,
            }),
    {
        Self {
            sh_name: name_offset,
            sh_type,
            sh_flags: flags,
            sh_addr: addr,
            sh_offset: offset,
            sh_size: size,
            sh_link: link,
            sh_info: info,
            sh_addralign: addralign,
            sh_entsize: entsize,
        }
    }

    pub fn bytecode(&self) -> (r: Vec<u8>)
        ensures
            r@ == spec_section_header_bytes(*self),
            r@.len() == 64,
    {
        let mut bytes: Vec<u8> = Vec::new();
        push_le32(&mut bytes, self.sh_name);
        push_le32(&mut bytes, self.sh_type);
        push_le64(&mut bytes, self.sh_flags);
        push_le64(&mut bytes, self.sh_addr);
        push_le64(&mut bytes, self.sh_offset);
        push_le64(&mut bytes, self.sh_size);
        push_le32(&mut bytes, self.sh_link);
        push_le32(&mut bytes, self.sh_info);
        push_le64(&mut bytes, self.sh_addralign);
        push_le64(&mut bytes, self.sh_entsize);
        proof {
            assert(bytes@ =~= spec_section_header_bytes(*self));
        }
        bytes
    }
}

// Section types.
pub const SHT_NULL: u32 = 0;

pub const SHT_PROGBITS: u32 = 1;

pub const SHT_STRTAB: u32 = 3;

pub const SHT_DYNAMIC: u32 = 6;

pub const SHT_NOBITS: u32 = 8;

pub const SHT_REL: u32 = 9;

pub const SHT_DYNSYM: u32 = 11;

// Section flags.
pub const SHF_WRITE: u64 = 0x1;

pub const SHF_ALLOC: u64 = 0x2;

pub const SHF_EXECINSTR: u64 = 0x4;

} // verus!
